//! Keyword derivation: searchable tokens produced from the textual fields
//! of newly persisted records — one row per whitespace-delimited token
//! per source field, owned by the record's identity and tagged with a
//! category code.

use vstd::prelude::*;

use crate::enrich::{Foody, Meal};
use crate::text::{chars_of, spec_tokenize, string_from_chars, tokenize, views_of};

verus! {

/// A searchable token derived from a persisted record.
#[derive(Clone, Debug, PartialEq)]
pub struct Keyword {
    pub idsuggestion: i64,
    pub keyword: String,
    pub idrestaurant: i64,
    pub idcat: i64,
}

/// The category a keyword was derived from.
#[derive(Clone, Copy, Debug, PartialEq, Eq, Structural)]
pub enum Category {
    Meal,
    Restaurant,
    Food,
}

pub open spec fn spec_category_int(c: Category) -> int {
    match c {
        Category::Meal => 1,
        Category::Restaurant => 2,
        Category::Food => 3,
    }
}

impl Category {
    /// The category code persisted with a keyword row.
    pub fn to_int(&self) -> (r: i64)
        ensures
            r == spec_category_int(*self),
    {
        match self {
            Category::Meal => 1,
            Category::Restaurant => 2,
            Category::Food => 3,
        }
    }
}

/// One keyword row per whitespace-delimited token of one textual field.
pub fn derive_keywords(text: &str, idrestaurant: i64, category: Category) -> (out: Vec<Keyword>)
    ensures
        out@.len() == spec_tokenize(text@).len(),
        forall|k: int|
            0 <= k < out@.len() ==> (#[trigger] out@[k]).keyword@ == spec_tokenize(text@)[k]
                && out@[k].idrestaurant == idrestaurant && out@[k].idcat == spec_category_int(
                category,
            ) && out@[k].idsuggestion == 0,
{
    let cs = chars_of(text);
    let toks = tokenize(&cs);
    let ghost vs = views_of(toks@);
    let mut out: Vec<Keyword> = Vec::new();
    let mut i: usize = 0;
    while i < toks.len()
        invariant
            i <= toks@.len(),
            vs == views_of(toks@),
            vs == spec_tokenize(text@),
            out@.len() == i,
            forall|k: int|
                0 <= k < i ==> (#[trigger] out@[k]).keyword@ == vs[k] && out@[k].idrestaurant
                    == idrestaurant && out@[k].idcat == spec_category_int(category)
                    && out@[k].idsuggestion == 0,
        decreases toks@.len() - i,
    {
        proof {
            assert(vs[i as int] == toks@[i as int]@);
        }
        let word = string_from_chars(&toks[i]);
        out.push(
            Keyword { idsuggestion: 0, keyword: word, idrestaurant, idcat: category.to_int() },
        );
        i = i + 1;
    }
    out
}

/// The tokens of a list of item names, in order.
pub open spec fn spec_content_tokens(content: Seq<Seq<char>>) -> Seq<Seq<char>>
    decreases content.len(),
{
    if content.len() == 0 {
        Seq::empty()
    } else {
        spec_content_tokens(content.drop_last()) + spec_tokenize(content.last())
    }
}

/// The tokens of every item name of every food group, in order.
pub open spec fn spec_foody_tokens(fs: Seq<Foody>) -> Seq<Seq<char>>
    decreases fs.len(),
{
    if fs.len() == 0 {
        Seq::empty()
    } else {
        spec_foody_tokens(fs.drop_last()) + spec_content_tokens(fs.last().content.deep_view())
    }
}

/// The keyword rows of one menu entry: every token of every item name of
/// every food group, owned by the entry's venue, in the Food category.
pub fn meal_keywords(meal: &Meal) -> (out: Vec<Keyword>)
    ensures
        out@.len() == spec_foody_tokens(meal.foodies@).len(),
        forall|k: int|
            0 <= k < out@.len() ==> (#[trigger] out@[k]).keyword@ == spec_foody_tokens(
                meal.foodies@,
            )[k] && out@[k].idrestaurant == meal.idrestaurant && out@[k].idcat == 3
                && out@[k].idsuggestion == 0,
{
    let mut out: Vec<Keyword> = Vec::new();
    let mut i: usize = 0;
    while i < meal.foodies.len()
        invariant
            i <= meal.foodies@.len(),
            out@.len() == spec_foody_tokens(meal.foodies@.take(i as int)).len(),
            forall|k: int|
                0 <= k < out@.len() ==> (#[trigger] out@[k]).keyword@ == spec_foody_tokens(
                    meal.foodies@.take(i as int),
                )[k] && out@[k].idrestaurant == meal.idrestaurant && out@[k].idcat == 3
                    && out@[k].idsuggestion == 0,
        decreases meal.foodies@.len() - i,
    {
        let ghost pre = spec_foody_tokens(meal.foodies@.take(i as int));
        proof {
            assert(meal.foodies@.take(i as int + 1).drop_last() =~= meal.foodies@.take(i as int));
            assert(meal.foodies@.take(i as int + 1).last() == meal.foodies@[i as int]);
        }
        let foody = &meal.foodies[i];
        let mut j: usize = 0;
        while j < foody.content.len()
            invariant
                j <= foody.content@.len(),
                foody == &meal.foodies[i as int],
                i < meal.foodies@.len(),
                out@.len() == pre.len() + spec_content_tokens(
                    foody.content.deep_view().take(j as int),
                ).len(),
                forall|k: int|
                    0 <= k < out@.len() ==> (#[trigger] out@[k]).keyword@ == (pre
                        + spec_content_tokens(foody.content.deep_view().take(j as int)))[k]
                        && out@[k].idrestaurant == meal.idrestaurant && out@[k].idcat == 3
                        && out@[k].idsuggestion == 0,
            decreases foody.content@.len() - j,
        {
            let ghost cpre = spec_content_tokens(foody.content.deep_view().take(j as int));
            proof {
                assert(foody.content.deep_view().take(j as int + 1).drop_last()
                    =~= foody.content.deep_view().take(j as int));
                assert(foody.content.deep_view().take(j as int + 1).last()
                    == foody.content.deep_view()[j as int]);
                assert(foody.content.deep_view()[j as int] == foody.content@[j as int]@);
            }
            let words = derive_keywords(foody.content[j].as_str(), meal.idrestaurant,
                Category::Food);
            let ghost out_pre = out@;
            let ghost words_snap = words@;
            let mut words_mut = words;
            out.append(&mut words_mut);
            proof {
                let cnow = spec_content_tokens(foody.content.deep_view().take(j as int + 1));
                assert(cnow == cpre + spec_tokenize(foody.content@[j as int]@));
                assert(out@.len() == pre.len() + cnow.len());
                assert forall|k: int| 0 <= k < out@.len() implies (#[trigger] out@[k]).keyword@
                    == (pre + cnow)[k] && out@[k].idrestaurant == meal.idrestaurant
                    && out@[k].idcat == 3 && out@[k].idsuggestion == 0 by {
                    if k < out_pre.len() {
                        assert(out@[k] == out_pre[k]);
                        assert((pre + cpre)[k] == (pre + cnow)[k]);
                    } else {
                        assert(out@[k] == words_snap[k - out_pre.len()]);
                    }
                }
            }
            j = j + 1;
        }
        proof {
            let fnow = spec_foody_tokens(meal.foodies@.take(i as int + 1));
            assert(foody.content.deep_view().take(foody.content@.len() as int)
                =~= foody.content.deep_view());
            assert(fnow == pre + spec_content_tokens(foody.content.deep_view()));
        }
        i = i + 1;
    }
    proof {
        assert(meal.foodies@.take(meal.foodies@.len() as int) =~= meal.foodies@);
    }
    out
}

} // verus!
