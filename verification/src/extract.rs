//! The field extractor: a thin trusted layer over the `scraper` crate.
//! Each function parses a document text and extracts one fixed shape of
//! plain values under structural queries in CSS-selector form. Parsing is
//! deterministic and never fails hard, so each result is a function of
//! the document text and the queries alone; the names below stand for
//! those results, and every decision the pipeline takes over them is made
//! by verified code. A `None` at the outermost level stands for a query
//! that does not compile — a caller-time configuration error, not a
//! runtime data error.

use scraper::{Html, Selector};
use vstd::prelude::*;

verus! {

/// What the listing extraction returns when every query compiles: for
/// each element of the document matching `entry_q`, in document order,
/// the text of its first `city_q` descendant (text nodes joined with
/// `sep`), the element's own `attr` value, and the text of its first
/// `name_q` descendant; `None` for each part whose element or attribute
/// is absent.
pub uninterp spec fn spec_listing_parts(
    html: Seq<char>,
    entry_q: Seq<char>,
    city_q: Seq<char>,
    name_q: Seq<char>,
    attr: Seq<char>,
    sep: Seq<char>,
) -> Option<Seq<(Option<Seq<char>>, Option<Seq<char>>, Option<Seq<char>>)>>;

/// Relies on scraper's `Html::parse_document`, `Html::select`,
/// `ElementRef::select`, `ElementRef::text` and `ElementRef::attr`: one
/// entry per match of `entry_q`, in document order, with the city text,
/// the attribute value and the name text of that entry.
#[verifier::external_body]
pub(crate) fn listing_parts(html: &str, entry_q: &str, city_q: &str, name_q: &str, attr: &str, sep: &str) -> (r: Option<Vec<(Option<String>, Option<String>, Option<String>)>>)
    ensures
        r.deep_view() == spec_listing_parts(html@, entry_q@, city_q@, name_q@, attr@, sep@),
{
    let doc = Html::parse_document(html);
    let entry_sel = Selector::parse(entry_q).ok()?;
    let city_sel = Selector::parse(city_q).ok()?;
    let name_sel = Selector::parse(name_q).ok()?;
    Some(doc.select(&entry_sel).map(|el| (
        el.select(&city_sel).next().map(|e| e.text().collect::<Vec<_>>().join(sep)),
        el.attr(attr).map(|v| v.to_string()),
        el.select(&name_sel).next().map(|e| e.text().collect::<Vec<_>>().join(sep)),
    )).collect())
}

/// What attribute extraction returns: `None` when no element of the
/// document matches `q` (or the query does not compile); otherwise the
/// values of the two named attributes on the first matching element, each
/// `None` when the element does not carry it.
pub uninterp spec fn spec_first_two_attrs(
    html: Seq<char>,
    q: Seq<char>,
    attr1: Seq<char>,
    attr2: Seq<char>,
) -> Option<(Option<Seq<char>>, Option<Seq<char>>)>;

/// Relies on scraper's `Html::parse_document`, `Html::select` and
/// `ElementRef::attr`: the two attribute values of the first element
/// matching `q`.
#[verifier::external_body]
pub(crate) fn first_two_attrs(html: &str, q: &str, attr1: &str, attr2: &str) -> (r: Option<(Option<String>, Option<String>)>)
    ensures
        r.deep_view() == spec_first_two_attrs(html@, q@, attr1@, attr2@),
{
    let doc = Html::parse_document(html);
    let sel = Selector::parse(q).ok()?;
    doc.select(&sel).next().map(|el| (
        el.attr(attr1).map(|v| v.to_string()),
        el.attr(attr2).map(|v| v.to_string()),
    ))
}

/// What text extraction returns: `None` when no element of the document
/// matches `q` (or the query does not compile); otherwise the descendant
/// text nodes of the first matching element, joined with `sep`, without
/// whitespace normalization.
pub uninterp spec fn spec_first_text(html: Seq<char>, q: Seq<char>, sep: Seq<char>) -> Option<
    Seq<char>,
>;

/// Relies on scraper's `Html::parse_document`, `Html::select` and
/// `ElementRef::text`: the joined text of the first element matching `q`.
#[verifier::external_body]
pub(crate) fn first_text(html: &str, q: &str, sep: &str) -> (r: Option<String>)
    ensures
        r.deep_view() == spec_first_text(html@, q@, sep@),
{
    let doc = Html::parse_document(html);
    let sel = Selector::parse(q).ok()?;
    doc.select(&sel).next().map(|el| el.text().collect::<Vec<_>>().join(sep))
}

/// What date extraction returns: `None` when no element of the document
/// matches `menu_q` (or a query does not compile); otherwise the
/// concatenated text of the first `date_q` descendant of the first
/// matching container, `None` inside when the container has no such
/// descendant.
pub uninterp spec fn spec_menu_date(html: Seq<char>, menu_q: Seq<char>, date_q: Seq<char>) -> Option<
    Option<Seq<char>>,
>;

/// Relies on scraper's `Html::parse_document`, `Html::select`,
/// `ElementRef::select` and `ElementRef::text`: the date-title text of
/// the first menu container.
#[verifier::external_body]
pub(crate) fn menu_date(html: &str, menu_q: &str, date_q: &str) -> (r: Option<Option<String>>)
    ensures
        r.deep_view() == spec_menu_date(html@, menu_q@, date_q@),
{
    let doc = Html::parse_document(html);
    let menu_sel = Selector::parse(menu_q).ok()?;
    let date_sel = Selector::parse(date_q).ok()?;
    let menu = doc.select(&menu_sel).next()?;
    Some(menu.select(&date_sel).next().map(|e| e.text().collect()))
}

/// What meal extraction returns: `None` when no element of the document
/// matches `menu_q` (or a query does not compile); otherwise one entry
/// per `meal_q` descendant of the first matching container, in document
/// order, holding the concatenated text of the meal's first `title_q`
/// descendant (`None` when absent) and one pair per `group_q` descendant
/// of the meal, in order: the group's inner HTML and the concatenated
/// texts of its `item_q` descendants, in order.
pub uninterp spec fn spec_menu_meals(
    html: Seq<char>,
    menu_q: Seq<char>,
    meal_q: Seq<char>,
    title_q: Seq<char>,
    group_q: Seq<char>,
    item_q: Seq<char>,
) -> Option<Seq<(Option<Seq<char>>, Seq<(Seq<char>, Seq<Seq<char>>)>)>>;

/// Relies on scraper's `Html::parse_document`, `Html::select`,
/// `ElementRef::select`, `ElementRef::text` and `ElementRef::inner_html`:
/// the meal titles and food groups of the first menu container, in
/// document order.
#[verifier::external_body]
pub(crate) fn menu_meals(html: &str, menu_q: &str, meal_q: &str, title_q: &str, group_q: &str, item_q: &str) -> (r: Option<Vec<(Option<String>, Vec<(String, Vec<String>)>)>>)
    ensures
        r.deep_view() == spec_menu_meals(html@, menu_q@, meal_q@, title_q@, group_q@, item_q@),
{
    let doc = Html::parse_document(html);
    let title_sel = Selector::parse(title_q).ok()?;
    let group_sel = Selector::parse(group_q).ok()?;
    let item_sel = Selector::parse(item_q).ok()?;
    let menu = doc.select(&Selector::parse(menu_q).ok()?).next()?;
    Some(menu.select(&Selector::parse(meal_q).ok()?).map(|m| (
        m.select(&title_sel).next().map(|t| t.text().collect()),
        m.select(&group_sel).map(|g| (g.inner_html(),
            g.select(&item_sel).map(|i| i.text().collect()).collect())).collect(),
    )).collect())
}

} // verus!
