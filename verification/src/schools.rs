//! The secondary feed: schools from a paginated public records API,
//! filtered to publicly-operated institutions and reloaded clear-then-
//! insert like venues. The logic reads only plain fields of each record;
//! fetching and decoding the feed stays outside the library.

use vstd::prelude::*;

use crate::text::{chars_of, contains_sub, spec_contains};

verus! {

/// A school row as persisted: identity, canonical name, display name and
/// the coordinate pair rendered as text.
#[derive(Clone, Debug, PartialEq)]
pub struct School {
    pub idschool: i64,
    pub long_name: String,
    pub name: String,
    pub coords: String,
}

/// What the schools logic reads of one record of the public feed: the
/// institution's name, its optional short name, its status text and its
/// coordinate pair rendered as text.
#[derive(Clone, Debug, PartialEq)]
pub struct SchoolRecord {
    pub nom: String,
    pub sigle: Option<String>,
    pub statut: String,
    pub coords: String,
}

/// A record is kept when its status text contains `"Public"`.
pub open spec fn spec_is_public(statut: Seq<char>) -> bool {
    spec_contains(statut, "Public"@)
}

pub fn is_public_school(rec: &SchoolRecord) -> (r: bool)
    ensures
        r == spec_is_public(rec.statut@),
{
    let cs = chars_of(rec.statut.as_str());
    let pat = chars_of("Public");
    proof {
        reveal_strlit("Public");
    }
    contains_sub(&cs, &pat)
}

/// An exact copy of a feed record.
fn dup_school_record(r: &SchoolRecord) -> (c: SchoolRecord)
    ensures
        c == *r,
{
    SchoolRecord {
        nom: r.nom.clone(),
        sigle: (match &r.sigle {
            Some(s) => Some(s.clone()),
            None => None,
        }),
        statut: r.statut.clone(),
        coords: r.coords.clone(),
    }
}

/// The publicly-operated records, in feed order.
pub open spec fn spec_filter_public(rs: Seq<SchoolRecord>) -> Seq<SchoolRecord>
    decreases rs.len(),
{
    if rs.len() == 0 {
        Seq::empty()
    } else {
        let rest = spec_filter_public(rs.drop_last());
        if spec_is_public(rs.last().statut@) {
            rest.push(rs.last())
        } else {
            rest
        }
    }
}

/// Keep only the publicly-operated institutions.
pub fn filter_public_schools(schools: Vec<SchoolRecord>) -> (out: Vec<SchoolRecord>)
    ensures
        out@ == spec_filter_public(schools@),
{
    let mut out: Vec<SchoolRecord> = Vec::new();
    let mut i: usize = 0;
    while i < schools.len()
        invariant
            i <= schools@.len(),
            out@ == spec_filter_public(schools@.take(i as int)),
        decreases schools@.len() - i,
    {
        proof {
            assert(schools@.take(i as int + 1).drop_last() =~= schools@.take(i as int));
            assert(schools@.take(i as int + 1).last() == schools@[i as int]);
        }
        if is_public_school(&schools[i]) {
            out.push(dup_school_record(&schools[i]));
        }
        i = i + 1;
    }
    proof {
        assert(schools@.take(schools@.len() as int) =~= schools@);
    }
    out
}

/// The persisted row built from a feed record: the display name is the
/// short name when the feed carries one, the full name otherwise; the
/// identity is assigned only by the store.
pub fn convert_to_school(school_data: SchoolRecord) -> (s: School)
    ensures
        s.idschool == 0,
        s.long_name@ == school_data.nom@,
        s.coords@ == school_data.coords@,
        s.name@ == (match school_data.sigle {
            Some(sig) => sig@,
            None => school_data.nom@,
        }),
{
    let name = match school_data.sigle {
        Some(sig) => sig,
        None => school_data.nom.clone(),
    };
    School { idschool: 0, name, coords: school_data.coords, long_name: school_data.nom }
}

} // verus!
