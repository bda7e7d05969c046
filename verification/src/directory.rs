//! The directory scraper's domain logic: one venue candidate per
//! qualifying listing entry, in document order. An entry qualifies when
//! its city label matches the fixed allow-list up to ASCII case and it
//! carries both an href and a name element; entries missing a part are
//! skipped, never fatal. A failed retrieval of the listing page itself is
//! the caller's error, fatal to the whole step.

use vstd::prelude::*;

use crate::extract::{listing_parts, spec_listing_parts};
use crate::text::{chars_of, dup_opt_string, eq_ignore_ascii_case, eq_seq_ci};

verus! {

/// A catering location. The source URL is the natural key of the whole
/// run; the identity is assigned only by the store and is absent until
/// the record is persisted.
#[derive(Clone, Debug, PartialEq)]
pub struct Restaurant {
    pub idrestaurant: Option<i32>,
    pub url: String,
    pub name: String,
    pub gpscoord: Option<String>,
    pub hours: Option<String>,
}

/// A candidate is kept only when its city label equals `"Montpellier"` or
/// `"Sète"` up to ASCII case.
pub open spec fn spec_city_allowed(city: Seq<char>) -> bool {
    eq_seq_ci(city, "Montpellier"@) || eq_seq_ci(city, "Sète"@)
}

pub fn city_allowed(city: &str) -> (r: bool)
    ensures
        r == spec_city_allowed(city@),
{
    let cs = chars_of(city);
    eq_ignore_ascii_case(&cs, &chars_of("Montpellier")) || eq_ignore_ascii_case(
        &cs,
        &chars_of("Sète"),
    )
}

/// The city filter is ASCII-case-insensitive: two labels equal up to
/// ASCII case are both kept or both dropped.
pub proof fn lemma_city_filter_case_insensitive(a: Seq<char>, b: Seq<char>)
    requires
        eq_seq_ci(a, b),
    ensures
        spec_city_allowed(a) == spec_city_allowed(b),
{
    lemma_eq_seq_ci_same_names(a, b, "Montpellier"@);
    lemma_eq_seq_ci_same_names(a, b, "Sète"@);
}

proof fn lemma_eq_seq_ci_same_names(a: Seq<char>, b: Seq<char>, m: Seq<char>)
    requires
        eq_seq_ci(a, b),
    ensures
        eq_seq_ci(a, m) == eq_seq_ci(b, m),
{
    if eq_seq_ci(a, m) {
        assert forall|i: int| 0 <= i < b.len() implies crate::text::eq_char_ci(b[i], m[i]) by {
            assert(crate::text::eq_char_ci(a[i], b[i]));
            assert(crate::text::eq_char_ci(a[i], m[i]));
        }
    }
    if eq_seq_ci(b, m) {
        assert forall|i: int| 0 <= i < a.len() implies crate::text::eq_char_ci(a[i], m[i]) by {
            assert(crate::text::eq_char_ci(a[i], b[i]));
            assert(crate::text::eq_char_ci(b[i], m[i]));
        }
    }
}

/// A listing entry qualifies: city label present and on the allow-list,
/// href present, name present.
pub open spec fn spec_keep_part(p: (Option<Seq<char>>, Option<Seq<char>>, Option<Seq<char>>)) -> bool {
    &&& p.0 matches Some(c) && spec_city_allowed(c)
    &&& p.1 is Some
    &&& p.2 is Some
}

/// The (href, name) pairs of the qualifying entries, in document order.
pub open spec fn spec_kept_parts(
    parts: Seq<(Option<Seq<char>>, Option<Seq<char>>, Option<Seq<char>>)>,
) -> Seq<(Seq<char>, Seq<char>)>
    decreases parts.len(),
{
    if parts.len() == 0 {
        Seq::empty()
    } else {
        let rest = spec_kept_parts(parts.drop_last());
        let p = parts.last();
        if spec_keep_part(p) {
            match (p.1, p.2) {
                (Some(h), Some(n)) => rest.push((h, n)),
                _ => rest,
            }
        } else {
            rest
        }
    }
}

/// The candidate built from the parts extracted for one listing entry:
/// present city label passing the allow-list, present href and present
/// name give a candidate with no identity, no coordinates and no hours;
/// anything else is skipped.
pub fn candidate_from_parts(city: Option<String>, href: Option<String>, name: Option<String>) -> (r:
    Option<Restaurant>)
    ensures
        (match r {
            Some(c) => {
                &&& city matches Some(cv) && spec_city_allowed(cv@)
                &&& href matches Some(h) && c.url@ == h@
                &&& name matches Some(n) && c.name@ == n@
                &&& c.idrestaurant is None
                &&& c.gpscoord is None
                &&& c.hours is None
            },
            None => !({
                &&& city matches Some(cv) && spec_city_allowed(cv@)
                &&& href is Some
                &&& name is Some
            }),
        }),
{
    let cv = match city {
        Some(cv) => cv,
        None => {
            return None;
        },
    };
    if !city_allowed(cv.as_str()) {
        return None;
    }
    let h = match href {
        Some(h) => h,
        None => {
            return None;
        },
    };
    let n = match name {
        Some(n) => n,
        None => {
            return None;
        },
    };
    Some(Restaurant { idrestaurant: None, url: h, name: n, gpscoord: None, hours: None })
}

/// Extract one candidate per qualifying entry of the listing page, in
/// document order: exactly the qualifying (href, name) pairs of the
/// listing extraction, each without identity, coordinates or hours. The
/// fixed structural queries always compile, so the extraction's refusal
/// case yields no candidates.
pub fn discover(html: &str) -> (r: Vec<Restaurant>)
    ensures
        (match spec_listing_parts(
            html@,
            ".vc_restaurants ul li a"@,
            ".restaurant_area"@,
            ".restaurant_title"@,
            "href"@,
            " "@,
        ) {
            None => r@.len() == 0,
            Some(all) => {
                let kept = spec_kept_parts(all);
                &&& r@.len() == kept.len()
                &&& forall|k: int|
                    0 <= k < r@.len() ==> (#[trigger] r@[k]).url@ == kept[k].0 && r@[k].name@
                        == kept[k].1 && r@[k].idrestaurant is None && r@[k].gpscoord is None
                        && r@[k].hours is None
            },
        }),
{
    let extracted = listing_parts(
        html,
        ".vc_restaurants ul li a",
        ".restaurant_area",
        ".restaurant_title",
        "href",
        " ",
    );
    let parts = match extracted {
        Some(p) => p,
        None => {
            return Vec::new();
        },
    };
    let ghost pv = parts.deep_view();
    let mut cands: Vec<Restaurant> = Vec::new();
    let mut i: usize = 0;
    while i < parts.len()
        invariant
            i <= parts@.len(),
            pv == parts.deep_view(),
            spec_listing_parts(
                html@,
                ".vc_restaurants ul li a"@,
                ".restaurant_area"@,
                ".restaurant_title"@,
                "href"@,
                " "@,
            ) == Some(pv),
            cands@.len() == spec_kept_parts(pv.take(i as int)).len(),
            forall|k: int|
                0 <= k < cands@.len() ==> (#[trigger] cands@[k]).url@ == spec_kept_parts(
                    pv.take(i as int),
                )[k].0 && cands@[k].name@ == spec_kept_parts(pv.take(i as int))[k].1
                    && cands@[k].idrestaurant is None && cands@[k].gpscoord is None
                    && cands@[k].hours is None,
        decreases parts@.len() - i,
    {
        proof {
            assert(pv.take(i as int + 1).drop_last() =~= pv.take(i as int));
            assert(pv.take(i as int + 1).last() == pv[i as int]);
            assert(pv[i as int] == parts@[i as int].deep_view());
        }
        let p = &parts[i];
        let city = dup_opt_string(&p.0);
        let href = dup_opt_string(&p.1);
        let name = dup_opt_string(&p.2);
        let ghost part = pv[i as int];
        proof {
            assert(part.0 == city.deep_view());
            assert(part.1 == href.deep_view());
            assert(part.2 == name.deep_view());
        }
        let ghost before = spec_kept_parts(pv.take(i as int));
        match candidate_from_parts(city, href, name) {
            Some(c) => {
                proof {
                    assert(spec_keep_part(part));
                    assert(spec_kept_parts(pv.take(i as int + 1)) == before.push(
                        (c.url@, c.name@),
                    ));
                }
                cands.push(c);
            },
            None => {
                proof {
                    assert(!spec_keep_part(part));
                    assert(spec_kept_parts(pv.take(i as int + 1)) == before);
                }
            },
        }
        i = i + 1;
    }
    proof {
        assert(pv.take(pv.len() as int) =~= pv);
    }
    cands
}

} // verus!
