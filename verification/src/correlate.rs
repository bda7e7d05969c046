//! The correlator: enrichment results completed in any order are joined
//! back to their originating candidate record by exact URL equality — the
//! natural key of the run. A result whose URL matches no candidate is
//! silently dropped, and a result without coordinates is dropped too:
//! coordinates are mandatory for persistence even though hours are not.

use vstd::prelude::*;
use vstd::seq_lib::group_to_multiset_ensures;

use crate::directory::Restaurant;

verus! {

/// The outcome of one venue's enrichment: the venue's URL (the
/// correlation key), its coordinates rendered as a point literal, and its
/// normalized opening hours. An empty field stands for a concern whose
/// extraction failed; the failure was absorbed inside the enrichment task.
#[derive(Clone, Debug, PartialEq)]
pub struct RestaurantDetails {
    pub restaurant: String,
    pub gps: String,
    pub hours: String,
}

/// An exact copy of a venue record.
pub fn dup_restaurant(r: &Restaurant) -> (c: Restaurant)
    ensures
        c == *r,
{
    Restaurant {
        idrestaurant: r.idrestaurant,
        url: r.url.clone(),
        name: r.name.clone(),
        gpscoord: (match &r.gpscoord {
            Some(s) => Some(s.clone()),
            None => None,
        }),
        hours: (match &r.hours {
            Some(s) => Some(s.clone()),
            None => None,
        }),
    }
}

/// The candidate a key resolves to: the last candidate carrying that URL,
/// mirroring how a keyed map populated front to back overwrites earlier
/// entries.
pub open spec fn spec_find_candidate(cands: Seq<Restaurant>, url: Seq<char>) -> Option<Restaurant>
    decreases cands.len(),
{
    if cands.len() == 0 {
        None
    } else if cands.last().url@ == url {
        Some(cands.last())
    } else {
        spec_find_candidate(cands.drop_last(), url)
    }
}

/// The index of the candidate a key resolves to, if any.
pub fn find_candidate(cands: &Vec<Restaurant>, url: &String) -> (r: Option<usize>)
    ensures
        (match r {
            Some(i) => i < cands@.len() && spec_find_candidate(cands@, url@) == Some(
                cands@[i as int],
            ),
            None => spec_find_candidate(cands@, url@) is None,
        }),
{
    let mut k: usize = cands.len();
    proof {
        assert(cands@.take(cands@.len() as int) =~= cands@);
    }
    while k > 0
        invariant
            k <= cands@.len(),
            spec_find_candidate(cands@, url@) == spec_find_candidate(cands@.take(k as int), url@),
        decreases k,
    {
        proof {
            assert(cands@.take(k as int).last() == cands@[k as int - 1]);
            assert(cands@.take(k as int).drop_last() =~= cands@.take(k as int - 1));
        }
        if cands[k - 1].url == *url {
            return Some(k - 1);
        }
        k = k - 1;
    }
    None
}

/// A key that no candidate carries resolves to nothing: a result whose
/// URL matches no candidate is silently dropped.
pub proof fn lemma_unmatched_key_resolves_to_none(cands: Seq<Restaurant>, url: Seq<char>)
    requires
        forall|i: int| 0 <= i < cands.len() ==> (#[trigger] cands[i]).url@ != url,
    ensures
        spec_find_candidate(cands, url) is None,
    decreases cands.len(),
{
    if cands.len() > 0 {
        lemma_unmatched_key_resolves_to_none(cands.drop_last(), url);
    }
}

/// With unique candidate URLs — the URL is the natural key — a result's
/// key resolves to exactly its own candidate.
pub proof fn lemma_key_resolves_to_its_candidate(cands: Seq<Restaurant>, i: int)
    requires
        0 <= i < cands.len(),
        forall|j: int, k: int|
            #![trigger cands[j], cands[k]]
            0 <= j < k < cands.len() ==> cands[j].url@ != cands[k].url@,
    ensures
        spec_find_candidate(cands, cands[i].url@) == Some(cands[i]),
    decreases cands.len(),
{
    if i < cands.len() - 1 {
        assert(cands[i].url@ != cands[cands.len() - 1].url@);
        lemma_key_resolves_to_its_candidate(cands.drop_last(), i);
    }
}

/// What one enrichment result contributes: nothing when its coordinates
/// are empty or its URL resolves to no candidate; otherwise the resolved
/// candidate completed with the result's coordinates and hours — an empty
/// hours field means that concern failed, and the venue's hours stay
/// absent.
pub open spec fn spec_join_one(cands: Seq<Restaurant>, d: RestaurantDetails) -> Option<Restaurant> {
    if d.gps@.len() == 0 {
        None
    } else {
        match spec_find_candidate(cands, d.restaurant@) {
            None => None,
            Some(c) => Some(
                Restaurant {
                    idrestaurant: c.idrestaurant,
                    url: c.url,
                    name: c.name,
                    gpscoord: Some(d.gps),
                    hours: (if d.hours@.len() == 0 {
                        None
                    } else {
                        Some(d.hours)
                    }),
                },
            ),
        }
    }
}

/// The venues persisted for a run: each result's contribution, in result
/// order.
pub open spec fn spec_correlate(cands: Seq<Restaurant>, dets: Seq<RestaurantDetails>) -> Seq<
    Restaurant,
>
    decreases dets.len(),
{
    if dets.len() == 0 {
        Seq::empty()
    } else {
        let rest = spec_correlate(cands, dets.drop_last());
        match spec_join_one(cands, dets.last()) {
            Some(v) => rest.push(v),
            None => rest,
        }
    }
}

/// Join the completed enrichment results back to their candidates by URL
/// and apply the coordinates-mandatory filter: every venue handed on
/// carries non-empty coordinates.
pub fn correlate(cands: &Vec<Restaurant>, dets: &Vec<RestaurantDetails>) -> (out: Vec<Restaurant>)
    ensures
        out@ == spec_correlate(cands@, dets@),
        forall|k: int|
            0 <= k < out@.len() ==> ((#[trigger] out@[k]).gpscoord matches Some(g) && g@.len()
                > 0),
{
    let mut out: Vec<Restaurant> = Vec::new();
    let mut i: usize = 0;
    while i < dets.len()
        invariant
            i <= dets@.len(),
            out@ == spec_correlate(cands@, dets@.take(i as int)),
            forall|k: int|
                0 <= k < out@.len() ==> ((#[trigger] out@[k]).gpscoord matches Some(g)
                    && g@.len() > 0),
        decreases dets@.len() - i,
    {
        proof {
            assert(dets@.take(i as int + 1).drop_last() =~= dets@.take(i as int));
            assert(dets@.take(i as int + 1).last() == dets@[i as int]);
        }
        let d = &dets[i];
        if !d.gps.as_str().is_empty() {
            match find_candidate(cands, &d.restaurant) {
                Some(ci) => {
                    let c = &cands[ci];
                    let hours = if d.hours.as_str().is_empty() {
                        None
                    } else {
                        Some(d.hours.clone())
                    };
                    let v = Restaurant {
                        idrestaurant: c.idrestaurant,
                        url: c.url.clone(),
                        name: c.name.clone(),
                        gpscoord: Some(d.gps.clone()),
                        hours,
                    };
                    out.push(v);
                },
                None => {},
            }
        }
        i = i + 1;
    }
    proof {
        assert(dets@.take(dets@.len() as int) =~= dets@);
    }
    out
}

/// A result that contributes nothing — it failed, lost its coordinates,
/// or matches no candidate — can be removed without changing anything
/// about the other results' contributions: one task's failure is isolated
/// from its siblings.
pub proof fn lemma_isolation(
    cands: Seq<Restaurant>,
    dets: Seq<RestaurantDetails>,
    k: int,
)
    requires
        0 <= k < dets.len(),
        spec_join_one(cands, dets[k]) is None,
    ensures
        spec_correlate(cands, dets) == spec_correlate(cands, dets.remove(k)),
    decreases dets.len(),
{
    if k == dets.len() - 1 {
        assert(dets.remove(k) =~= dets.drop_last());
    } else {
        let prev = dets.drop_last();
        lemma_isolation(cands, prev, k);
        assert(dets.remove(k).drop_last() =~= prev.remove(k));
        assert(dets.remove(k).last() == dets.last());
    }
}

/// The coordinates-mandatory filter: a result with empty coordinates is
/// excluded from the persisted set even when its hours were extracted.
pub proof fn lemma_coordinates_mandatory(
    cands: Seq<Restaurant>,
    dets: Seq<RestaurantDetails>,
    k: int,
)
    requires
        0 <= k < dets.len(),
        dets[k].gps@.len() == 0,
    ensures
        spec_correlate(cands, dets) == spec_correlate(cands, dets.remove(k)),
{
    lemma_isolation(cands, dets, k);
}

/// Every result that resolves to a candidate and carries coordinates is
/// joined: its completed venue stands in the output.
pub proof fn lemma_correlate_complete(
    cands: Seq<Restaurant>,
    dets: Seq<RestaurantDetails>,
    i: int,
    v: Restaurant,
)
    requires
        0 <= i < dets.len(),
        spec_join_one(cands, dets[i]) == Some(v),
    ensures
        spec_correlate(cands, dets).contains(v),
    decreases dets.len(),
{
    if i == dets.len() - 1 {
        let rest = spec_correlate(cands, dets.drop_last());
        assert(rest.push(v)[rest.len() as int] == v);
    } else {
        lemma_correlate_complete(cands, dets.drop_last(), i, v);
        let rest = spec_correlate(cands, dets.drop_last());
        let j = choose|j: int| 0 <= j < rest.len() && rest[j] == v;
        match spec_join_one(cands, dets.last()) {
            Some(w) => {
                assert(rest.push(w)[j] == v);
            },
            None => {},
        }
    }
}

/// Everything in the output arises as the contribution of some result:
/// nothing is invented, and a result whose URL matches no candidate is
/// dropped.
pub proof fn lemma_correlate_sound(
    cands: Seq<Restaurant>,
    dets: Seq<RestaurantDetails>,
    v: Restaurant,
)
    requires
        spec_correlate(cands, dets).contains(v),
    ensures
        exists|i: int| 0 <= i < dets.len() && spec_join_one(cands, dets[i]) == Some(v),
    decreases dets.len(),
{
    let out = spec_correlate(cands, dets);
    let rest = spec_correlate(cands, dets.drop_last());
    match spec_join_one(cands, dets.last()) {
        Some(w) => {
            if w == v {
                assert(spec_join_one(cands, dets[dets.len() - 1]) == Some(v));
            } else {
                let j = choose|j: int| 0 <= j < out.len() && out[j] == v;
                assert(rest[j] == v);
                lemma_correlate_sound(cands, dets.drop_last(), v);
                let i = choose|i: int|
                    0 <= i < dets.drop_last().len() && spec_join_one(
                        cands,
                        dets.drop_last()[i],
                    ) == Some(v);
                assert(dets[i] == dets.drop_last()[i]);
            }
        },
        None => {
            lemma_correlate_sound(cands, dets.drop_last(), v);
            let i = choose|i: int|
                0 <= i < dets.drop_last().len() && spec_join_one(cands, dets.drop_last()[i])
                    == Some(v);
            assert(dets[i] == dets.drop_last()[i]);
        },
    }
}

/// Removing one result removes exactly its own contribution from the
/// output, counted as a multiset.
proof fn lemma_correlate_remove_multiset(
    cands: Seq<Restaurant>,
    dets: Seq<RestaurantDetails>,
    j: int,
)
    requires
        0 <= j < dets.len(),
    ensures
        spec_correlate(cands, dets).to_multiset() == (match spec_join_one(cands, dets[j]) {
            Some(v) => spec_correlate(cands, dets.remove(j)).to_multiset().insert(v),
            None => spec_correlate(cands, dets.remove(j)).to_multiset(),
        }),
    decreases dets.len(),
{
    broadcast use group_to_multiset_ensures;

    let rest = spec_correlate(cands, dets.drop_last());
    if j == dets.len() - 1 {
        assert(dets.remove(j) =~= dets.drop_last());
        match spec_join_one(cands, dets.last()) {
            Some(v) => {
                assert(rest.push(v).to_multiset() =~= rest.to_multiset().insert(v));
            },
            None => {},
        }
    } else {
        let prev = dets.drop_last();
        lemma_correlate_remove_multiset(cands, prev, j);
        assert(dets.remove(j).drop_last() =~= prev.remove(j));
        assert(dets.remove(j).last() == dets.last());
        let rest_r = spec_correlate(cands, prev.remove(j));
        match spec_join_one(cands, dets.last()) {
            Some(w) => {
                assert(rest.push(w).to_multiset() =~= rest.to_multiset().insert(w));
                assert(rest_r.push(w).to_multiset() =~= rest_r.to_multiset().insert(w));
                match spec_join_one(cands, dets[j]) {
                    Some(v) => {
                        assert(rest_r.to_multiset().insert(v).insert(w) =~= rest_r.to_multiset()
                            .insert(w).insert(v));
                    },
                    None => {},
                }
            },
            None => {},
        }
    }
}

/// Correlation by key is independent of completion order: two runs whose
/// results are the same up to order persist the same multiset of venues.
pub proof fn lemma_correlate_permutation(
    cands: Seq<Restaurant>,
    dets1: Seq<RestaurantDetails>,
    dets2: Seq<RestaurantDetails>,
)
    requires
        dets1.to_multiset() == dets2.to_multiset(),
    ensures
        spec_correlate(cands, dets1).to_multiset() == spec_correlate(cands, dets2).to_multiset(),
    decreases dets1.len(),
{
    broadcast use group_to_multiset_ensures;

    assert(dets1.to_multiset().len() == dets1.len());
    assert(dets2.to_multiset().len() == dets2.len());
    if dets1.len() == 0 {
        assert(dets2.len() == 0);
    } else {
        let d = dets1.last();
        assert(dets1.contains(d));
        assert(dets1.to_multiset().count(d) > 0);
        assert(dets2.contains(d));
        let j = choose|j: int| 0 <= j < dets2.len() && dets2[j] == d;
        assert(dets1.remove(dets1.len() - 1) =~= dets1.drop_last());
        assert(dets1.drop_last().to_multiset() == dets1.to_multiset().remove(d));
        assert(dets2.remove(j).to_multiset() == dets2.to_multiset().remove(d));
        lemma_correlate_permutation(cands, dets1.drop_last(), dets2.remove(j));
        lemma_correlate_remove_multiset(cands, dets2, j);
        match spec_join_one(cands, d) {
            Some(v) => {
                let rest = spec_correlate(cands, dets1.drop_last());
                assert(rest.push(v).to_multiset() =~= rest.to_multiset().insert(v));
            },
            None => {},
        }
    }
}

} // verus!
