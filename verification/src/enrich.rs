//! The detail enricher: given one venue's detail page, extract its
//! coordinates, its opening hours and its structured menu tree. The three
//! concerns are independent — partial failure of one never fails the
//! others, and any failure stops that single venue's enrichment, never
//! the run.

use vstd::prelude::*;

use crate::correlate::RestaurantDetails;
use crate::dates::{parse_date, spec_parse_date, CalendarDate};
use crate::directory::Restaurant;
use crate::extract::{
    first_text, first_two_attrs, menu_date, menu_meals, spec_first_text, spec_first_two_attrs,
    spec_menu_date, spec_menu_meals,
};
use crate::hours::{hours_from_text, lower_of, spec_effective_hours_text, spec_parse_hours};
use crate::text::{
    chars_of, dup_strings, find_first, lemma_find_from_bounds, push_all, spec_find_first,
    string_from_chars, sub_chars,
};

verus! {

/// A venue's coordinates: the venue's URL (the correlation key) and the
/// coordinates rendered as a point literal.
#[derive(Clone, Debug, PartialEq)]
pub struct RestaurantCoords {
    pub restaurant: String,
    pub gps: String,
}

/// Failure of a single enrichment concern. It stops that concern for that
/// venue and nothing else.
#[derive(Debug)]
pub enum DetailError {
    NoCoordinatesFound,
    NoHoursFound,
}

/// A meal slot as extracted from the page: a title and its food groups.
#[derive(Clone, Debug, PartialEq)]
pub struct MealHTML {
    pub title: String,
    pub foodies: Vec<Foody>,
}

/// A food group: a course label and the ordered names of its items.
#[derive(Clone, Debug, PartialEq)]
pub struct Foody {
    pub kind: String,
    pub content: Vec<String>,
}

/// Failure of a venue's menu extraction.
#[derive(Debug)]
pub enum MealError {
    NoMenuFound,
    NoDateFound,
    DomIssue(String),
    Reqwest(String),
}

/// One menu entry to persist: the meal-slot label, its food groups, the
/// serving date and the owning venue's identity.
#[derive(Clone, Debug, PartialEq)]
pub struct Meal {
    pub typemeal: String,
    pub foodies: Vec<Foody>,
    pub day: CalendarDate,
    pub idrestaurant: i64,
}

/// The coordinate pair rendered as a point literal.
pub open spec fn spec_gps_point(lat: Seq<char>, lon: Seq<char>) -> Seq<char> {
    "point("@ + lat + ","@ + lon + ")"@
}

fn gps_point(lat: &str, lon: &str) -> (r: String)
    ensures
        r@ == spec_gps_point(lat@, lon@),
{
    let mut out = chars_of("point(");
    push_all(&mut out, &chars_of(lat));
    push_all(&mut out, &chars_of(","));
    push_all(&mut out, &chars_of(lon));
    push_all(&mut out, &chars_of(")"));
    string_from_chars(&out)
}

/// The coordinates record built from the two attributes of the map
/// element: both present give the point literal under the venue's key;
/// a missing attribute means the venue has no coordinates.
pub fn coords_from_attrs(url: &str, lat: Option<String>, lon: Option<String>) -> (r: Result<
    RestaurantCoords,
    DetailError,
>)
    ensures
        (match r {
            Ok(c) => {
                &&& lat matches Some(la) && lon matches Some(lo) && c.gps@ == spec_gps_point(
                    la@,
                    lo@,
                )
                &&& c.restaurant@ == url@
            },
            Err(e) => (lat is None || lon is None) && e is NoCoordinatesFound,
        }),
{
    let la = match lat {
        Some(la) => la,
        None => {
            return Err(DetailError::NoCoordinatesFound);
        },
    };
    let lo = match lon {
        Some(lo) => lo,
        None => {
            return Err(DetailError::NoCoordinatesFound);
        },
    };
    Ok(
        RestaurantCoords {
            restaurant: String::from_str(url),
            gps: gps_point(la.as_str(), lo.as_str()),
        },
    )
}

/// Extract a venue's coordinates from its detail page: the single map
/// element exposes them as two attributes; absence of the element or of
/// either attribute means the venue has no coordinates, never a failed
/// run.
pub fn extract_coordinates(html: &str, url: &str) -> (r: Result<RestaurantCoords, DetailError>)
    ensures
        (match spec_first_two_attrs(html@, "#map"@, "data-lat"@, "data-lon"@) {
            Some(attrs) => (match attrs {
                (Some(la), Some(lo)) => r matches Ok(c) && c.restaurant@ == url@ && c.gps@
                    == spec_gps_point(la, lo),
                _ => r matches Err(e) && e is NoCoordinatesFound,
            }),
            None => r matches Err(e) && e is NoCoordinatesFound,
        }),
{
    match first_two_attrs(html, "#map", "data-lat", "data-lon") {
        Some(attrs) => {
            let (la, lo) = attrs;
            let r = coords_from_attrs(url, la, lo);
            r
        },
        None => Err(DetailError::NoCoordinatesFound),
    }
}

/// Extract a venue's normalized opening hours from its detail page: the
/// first matching text block, passed through the hour normalizer after
/// the exception table is consulted; absence of the block means the venue
/// has no hours.
pub fn extract_hours(html: &str, url: &str) -> (r: Result<String, DetailError>)
    ensures
        (match spec_first_text(html@, ".info p"@, " "@) {
            Some(t) => r matches Ok(h) && h@ == spec_parse_hours(
                lower_of(spec_effective_hours_text(url@, t)),
            ),
            None => r matches Err(e) && e is NoHoursFound,
        }),
{
    match first_text(html, ".info p", " ") {
        Some(raw) => Ok(hours_from_text(url, raw.as_str())),
        None => Err(DetailError::NoHoursFound),
    }
}

/// Absorb per-concern failures into empty fields: one venue's enrichment
/// always yields a result record, so a failed task never aborts or
/// affects its siblings. A failed concern leaves its field empty, to be
/// filtered out (coordinates) or stored as absent (hours) by the
/// correlator.
pub fn assemble_details(
    coords: Result<RestaurantCoords, DetailError>,
    hours: Result<String, DetailError>,
) -> (r: RestaurantDetails)
    ensures
        r.restaurant@ == (match coords {
            Ok(c) => c.restaurant@,
            Err(_) => Seq::<char>::empty(),
        }),
        r.gps@ == (match coords {
            Ok(c) => c.gps@,
            Err(_) => Seq::<char>::empty(),
        }),
        r.hours@ == (match hours {
            Ok(h) => h@,
            Err(_) => Seq::<char>::empty(),
        }),
{
    let (restaurant, gps) = match coords {
        Ok(c) => (c.restaurant, c.gps),
        Err(_) => (String::new(), String::new()),
    };
    let hours_text = match hours {
        Ok(h) => h,
        Err(_) => String::new(),
    };
    RestaurantDetails { restaurant, gps, hours: hours_text }
}

/// The prefix of `s` before the first occurrence of `"<ul>"`; all of `s`
/// when none occurs. A food group's label is the inner HTML before its
/// nested list.
pub open spec fn spec_before_marker(s: Seq<char>) -> Seq<char> {
    match spec_find_first(s, "<ul>"@) {
        Some(i) => s.take(i),
        None => s,
    }
}

fn text_before_marker(s: &str) -> (r: String)
    ensures
        r@ == spec_before_marker(s@),
{
    let cs = chars_of(s);
    let marker = chars_of("<ul>");
    proof {
        reveal_strlit("<ul>");
    }
    match find_first(&cs, &marker) {
        Some(i) => {
            proof {
                lemma_find_from_bounds(cs@, marker@, 0);
            }
            let head = sub_chars(&cs, 0, i);
            proof {
                assert(head@ =~= cs@.take(i as int));
            }
            string_from_chars(&head)
        },
        None => string_from_chars(&cs),
    }
}

/// The meal parts of a detail page under the fixed structural contract of
/// the source site.
pub open spec fn spec_venue_meals(html: Seq<char>) -> Option<
    Seq<(Option<Seq<char>>, Seq<(Seq<char>, Seq<Seq<char>>)>)>,
> {
    spec_menu_meals(html, ".menu"@, ".meal"@, ".meal_title"@, "ul.meal_foodies > li"@, "ul li"@)
}

/// The date-title text of a detail page under the fixed structural
/// contract of the source site.
pub open spec fn spec_venue_date(html: Seq<char>) -> Option<Option<Seq<char>>> {
    spec_menu_date(html, ".menu"@, ".menu_date_title"@)
}

/// Every meal of the container carries a title element.
pub open spec fn spec_titles_present(
    meals: Seq<(Option<Seq<char>>, Seq<(Seq<char>, Seq<Seq<char>>)>)>,
) -> bool {
    forall|i: int| 0 <= i < meals.len() ==> (#[trigger] meals[i]).0 is Some
}

/// `m` is the menu entry owed for one extracted meal part: the title text
/// as its label, the shared serving date, the owning venue's identity,
/// and one food group per extracted group, in order — each group's label
/// the inner HTML before its nested list and its items the extracted item
/// texts.
pub open spec fn spec_meal_matches(
    m: Meal,
    part: (Option<Seq<char>>, Seq<(Seq<char>, Seq<Seq<char>>)>),
    day: CalendarDate,
    idrestaurant: i64,
) -> bool {
    &&& part.0 matches Some(t) && m.typemeal@ == t
    &&& m.day == day
    &&& m.idrestaurant == idrestaurant
    &&& m.foodies@.len() == part.1.len()
    &&& forall|j: int|
        0 <= j < part.1.len() ==> (#[trigger] m.foodies@[j]).kind@ == spec_before_marker(
            part.1[j].0,
        ) && m.foodies@[j].content.deep_view() == part.1[j].1
}

/// Extract the menu entries of one venue's detail page: the single menu
/// container holds one date title and zero or more meals, each with a
/// title and food groups. The result is one entry per meal, in document
/// order, all sharing the serving date parsed from the date title.
/// Absence of the container is `NoMenuFound`; absence of the date title,
/// or a date text that does not normalize, is `NoDateFound`; a meal
/// without a title is `NoMenuFound`. Each failure stops this venue's
/// menu — never the run.
pub fn extract_meals(html: &str, idrestaurant: i64) -> (r: Result<Vec<Meal>, MealError>)
    ensures
        (match spec_venue_meals(html@) {
            None => r matches Err(e) && e is NoMenuFound,
            Some(parts) => (match spec_venue_date(html@) {
                None => r matches Err(e) && e is NoDateFound,
                Some(dopt) => (match dopt {
                    None => r matches Err(e) && e is NoDateFound,
                    Some(d) => (match spec_parse_date(d) {
                        Err(_) => r matches Err(e) && e is NoDateFound,
                        Ok(day) => {
                            if spec_titles_present(parts) {
                                r matches Ok(meals) && meals@.len() == parts.len() && (forall|
                                    i: int,
                                |
                                    0 <= i < meals@.len() ==> spec_meal_matches(
                                        #[trigger] meals@[i],
                                        parts[i],
                                        day,
                                        idrestaurant,
                                    ))
                            } else {
                                r matches Err(e) && e is NoMenuFound
                            }
                        },
                    }),
                }),
            }),
        }),
{
    let extracted = menu_meals(html, ".menu", ".meal", ".meal_title", "ul.meal_foodies > li",
        "ul li");
    let ghost partsg = spec_venue_meals(html@)->0;
    let meal_parts = match extracted {
        Some(p) => p,
        None => {
            return Err(MealError::NoMenuFound);
        },
    };
    proof {
        assert(partsg == meal_parts.deep_view());
    }
    let date_opt = match menu_date(html, ".menu", ".menu_date_title") {
        Some(x) => x,
        None => {
            return Err(MealError::NoDateFound);
        },
    };
    let date_text = match date_opt {
        Some(d) => d,
        None => {
            return Err(MealError::NoDateFound);
        },
    };
    let day = match parse_date(date_text.as_str()) {
        Ok(day) => day,
        Err(_) => {
            return Err(MealError::NoDateFound);
        },
    };
    proof {
        assert(spec_venue_date(html@) == Some(Some(date_text@)));
        assert(spec_parse_date(date_text@) == Ok::<CalendarDate, crate::dates::DateFormatError>(
            day,
        ));
    }
    let mut meals: Vec<Meal> = Vec::new();
    let mut i: usize = 0;
    while i < meal_parts.len()
        invariant
            i <= meal_parts@.len(),
            spec_venue_meals(html@) == Some(partsg),
            spec_venue_date(html@) == Some(Some(date_text@)),
            spec_parse_date(date_text@) == Ok::<CalendarDate, crate::dates::DateFormatError>(day),
            partsg == meal_parts.deep_view(),
            meals@.len() == i,
            forall|k: int| 0 <= k < i ==> (#[trigger] partsg[k]).0 is Some,
            forall|k: int|
                0 <= k < i ==> spec_meal_matches(#[trigger] meals@[k], partsg[k], day, idrestaurant),
        decreases meal_parts@.len() - i,
    {
        proof {
            assert(partsg[i as int] == meal_parts@[i as int].deep_view());
        }
        let mpart = &meal_parts[i];
        let title = match &mpart.0 {
            Some(t) => t.clone(),
            None => {
                proof {
                    assert(partsg[i as int].0 == mpart.0.deep_view());
                    assert(mpart.0 is None);
                    assert(!spec_titles_present(partsg));
                }
                return Err(MealError::NoMenuFound);
            },
        };
        let ghost groups = partsg[i as int].1;
        let mut foodies: Vec<Foody> = Vec::new();
        let mut j: usize = 0;
        while j < mpart.1.len()
            invariant
                j <= mpart.1@.len(),
                *mpart == meal_parts@[i as int],
                i < meal_parts@.len(),
                groups == partsg[i as int].1,
                partsg[i as int] == meal_parts@[i as int].deep_view(),
                foodies@.len() == j,
                forall|t: int|
                    0 <= t < j ==> (#[trigger] foodies@[t]).kind@ == spec_before_marker(
                        groups[t].0,
                    ) && foodies@[t].content.deep_view() == groups[t].1,
            decreases mpart.1@.len() - j,
        {
            proof {
                assert(groups[j as int] == mpart.1@[j as int].deep_view());
            }
            let group = &mpart.1[j];
            let label = text_before_marker(group.0.as_str());
            let content = dup_strings(&group.1);
            proof {
                assert(content.deep_view() =~= group.1.deep_view());
            }
            foodies.push(Foody { kind: label, content });
            j = j + 1;
        }
        proof {
            assert(foodies@.len() == groups.len());
        }
        let meal_html = MealHTML { title, foodies };
        meals.push(
            Meal { typemeal: meal_html.title, foodies: meal_html.foodies, day, idrestaurant },
        );
        i = i + 1;
    }
    Ok(meals)
}

/// The venues eligible for the menu pipeline: those already persisted
/// with an identity and a non-empty URL; a venue with an empty or absent
/// URL is never enriched.
pub open spec fn spec_eligible(rs: Seq<Restaurant>) -> Seq<Restaurant>
    decreases rs.len(),
{
    if rs.len() == 0 {
        Seq::empty()
    } else {
        let rest = spec_eligible(rs.drop_last());
        let r = rs.last();
        if r.url@.len() > 0 && r.idrestaurant is Some {
            rest.push(r)
        } else {
            rest
        }
    }
}

/// Keep the venues that can be enriched for menus: identity assigned and
/// non-empty URL.
pub fn eligible_venues(rs: &Vec<Restaurant>) -> (out: Vec<Restaurant>)
    ensures
        out@ == spec_eligible(rs@),
{
    let mut out: Vec<Restaurant> = Vec::new();
    let mut i: usize = 0;
    while i < rs.len()
        invariant
            i <= rs@.len(),
            out@ == spec_eligible(rs@.take(i as int)),
        decreases rs@.len() - i,
    {
        proof {
            assert(rs@.take(i as int + 1).drop_last() =~= rs@.take(i as int));
            assert(rs@.take(i as int + 1).last() == rs@[i as int]);
        }
        let r = &rs[i];
        let keep = !r.url.as_str().is_empty() && r.idrestaurant.is_some();
        if keep {
            out.push(crate::correlate::dup_restaurant(r));
        }
        i = i + 1;
    }
    proof {
        assert(rs@.take(rs@.len() as int) =~= rs@);
    }
    out
}

} // verus!
