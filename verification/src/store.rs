//! A model of the persistence gateway's reload semantics for venues: the
//! store assigns identities, and a reload is destructive then additive —
//! delete-all, then insert-all, with the keyword index rebuilt alongside
//! its owners so that no keyword row ever references a missing record.
//! No transaction encloses the two phases: a crash in the middle of a
//! reload leaves the store empty rather than reverting to the prior
//! state, which is acceptable only because a full re-run is cheap.

use vstd::prelude::*;

use crate::correlate::dup_restaurant;
use crate::directory::Restaurant;
use crate::keywords::{derive_keywords, spec_category_int, Category, Keyword};
use crate::text::spec_tokenize;

verus! {

/// `r` with the identity `id` assigned.
pub open spec fn spec_with_id(r: Restaurant, id: int) -> Restaurant {
    Restaurant {
        idrestaurant: Some(id as i32),
        url: r.url,
        name: r.name,
        gpscoord: r.gpscoord,
        hours: r.hours,
    }
}

/// The rows stored after inserting `vs` in order, with identities
/// assigned sequentially from `base`.
pub open spec fn spec_assign_ids(vs: Seq<Restaurant>, base: int) -> Seq<Restaurant> {
    Seq::new(vs.len(), |i: int| spec_with_id(vs[i], base + i))
}

/// What a stored row says, identity aside.
pub open spec fn spec_row_content(r: Restaurant) -> (
    Seq<char>,
    Seq<char>,
    Option<Seq<char>>,
    Option<Seq<char>>,
) {
    (
        r.url@,
        r.name@,
        match r.gpscoord {
            Some(g) => Some(g@),
            None => None,
        },
        match r.hours {
            Some(h) => Some(h@),
            None => None,
        },
    )
}

/// The stored set, identity aside.
pub open spec fn spec_contents(rows: Seq<Restaurant>) -> Seq<
    (Seq<char>, Seq<char>, Option<Seq<char>>, Option<Seq<char>>),
> {
    rows.map_values(|r: Restaurant| spec_row_content(r))
}

/// Some stored row carries the identity `id`.
pub open spec fn spec_has_id(rows: Seq<Restaurant>, id: int) -> bool {
    exists|i: int|
        0 <= i < rows.len() && ((#[trigger] rows[i]).idrestaurant matches Some(x) && x as int
            == id)
}

/// The keyword views owed for inserting `vs` from `base`: for each venue
/// in order, one entry per whitespace token of its display name, owned by
/// that venue's assigned identity.
pub open spec fn spec_keyword_views(vs: Seq<Restaurant>, base: int) -> Seq<(Seq<char>, int)>
    decreases vs.len(),
{
    if vs.len() == 0 {
        Seq::empty()
    } else {
        spec_keyword_views(vs.drop_last(), base) + spec_tokenize(vs.last().name@).map_values(
            |t: Seq<char>| (t, base + vs.len() - 1),
        )
    }
}

/// The in-memory model of the venue store.
pub struct VenueStore {
    pub rows: Vec<Restaurant>,
    pub keywords: Vec<Keyword>,
    pub next_id: i32,
}

impl VenueStore {
    /// Every keyword row references a stored owner, and every stored row
    /// carries an identity below the next one to be assigned.
    pub open spec fn wf(self) -> bool {
        &&& forall|k: int|
            0 <= k < self.keywords@.len() ==> spec_has_id(
                self.rows@,
                (#[trigger] self.keywords@[k]).idrestaurant as int,
            )
        &&& forall|i: int|
            0 <= i < self.rows@.len() ==> ((#[trigger] self.rows@[i]).idrestaurant matches Some(x)
                && x < self.next_id)
    }

    pub fn new() -> (s: Self)
        ensures
            s.rows@ == Seq::<Restaurant>::empty(),
            s.keywords@ == Seq::<Keyword>::empty(),
            s.next_id == 1,
            s.wf(),
    {
        VenueStore { rows: Vec::new(), keywords: Vec::new(), next_id: 1 }
    }

    /// Delete-all: rows and their keyword index are cleared together; the
    /// identity sequence is not reset, as a database sequence is not.
    pub fn clear(&mut self)
        ensures
            final (self).rows@ == Seq::<Restaurant>::empty(),
            final (self).keywords@ == Seq::<Keyword>::empty(),
            final (self).next_id == old(self).next_id,
            final (self).wf(),
    {
        self.rows = Vec::new();
        self.keywords = Vec::new();
    }

    /// Insert one venue: the store assigns the next identity, stores the
    /// record, rebuilds its name keywords, and returns the stored record.
    pub fn create(&mut self, r: Restaurant) -> (stored: Restaurant)
        requires
            old(self).next_id < i32::MAX,
            old(self).wf(),
        ensures
            final (self).wf(),
            stored == spec_with_id(r, old(self).next_id as int),
            final (self).rows@ == old(self).rows@.push(stored),
            final (self).next_id == old(self).next_id + 1,
            final (self).keywords@.len() == old(self).keywords@.len() + spec_tokenize(
                r.name@,
            ).len(),
            forall|k: int|
                0 <= k < old(self).keywords@.len() ==> final (self).keywords@[k] == old(
                    self,
                ).keywords@[k],
            forall|k: int|
                old(self).keywords@.len() <= k < final (self).keywords@.len() ==> {
                    let t = k - old(self).keywords@.len();
                    (#[trigger] final (self).keywords@[k]).keyword@ == spec_tokenize(r.name@)[t]
                        && final (self).keywords@[k].idrestaurant == old(self).next_id as i64
                        && final (self).keywords@[k].idcat == 2 && final (
                    self).keywords@[k].idsuggestion == 0
                },
    {
        let id = self.next_id;
        let stored = Restaurant {
            idrestaurant: Some(id),
            url: r.url,
            name: r.name,
            gpscoord: r.gpscoord,
            hours: r.hours,
        };
        let copy = dup_restaurant(&stored);
        let ghost rows_pre = self.rows@;
        let ghost kw_pre = self.keywords@;
        self.rows.push(copy);
        let words = derive_keywords(stored.name.as_str(), id as i64, Category::Restaurant);
        let ghost words_snap = words@;
        let mut words_mut = words;
        self.keywords.append(&mut words_mut);
        self.next_id = id + 1;
        proof {
            assert forall|k: int| 0 <= k < self.keywords@.len() implies spec_has_id(
                self.rows@,
                (#[trigger] self.keywords@[k]).idrestaurant as int,
            ) by {
                if k < kw_pre.len() {
                    assert(self.keywords@[k] == kw_pre[k]);
                    let i = choose|i: int|
                        0 <= i < rows_pre.len() && ((#[trigger] rows_pre[i]).idrestaurant matches Some(
                            x,
                        ) && x as int == kw_pre[k].idrestaurant as int);
                    assert(self.rows@[i] == rows_pre[i]);
                } else {
                    assert(self.keywords@[k] == words_snap[k - kw_pre.len()]);
                    assert(self.rows@[rows_pre.len() as int] == stored);
                }
            }
        }
        stored
    }

    /// The stored rows, in insertion order.
    pub fn find_all(&self) -> (out: Vec<Restaurant>)
        ensures
            out@ == self.rows@,
    {
        let mut out: Vec<Restaurant> = Vec::new();
        let mut i: usize = 0;
        while i < self.rows.len()
            invariant
                i <= self.rows@.len(),
                out@ == self.rows@.take(i as int),
            decreases self.rows@.len() - i,
        {
            out.push(dup_restaurant(&self.rows[i]));
            proof {
                assert(self.rows@.take(i as int + 1) =~= self.rows@.take(i as int).push(
                    self.rows@[i as int],
                ));
            }
            i = i + 1;
        }
        proof {
            assert(self.rows@.take(self.rows@.len() as int) =~= self.rows@);
        }
        out
    }

    /// The reload step: delete-all, then insert-all. The stored rows
    /// afterwards are exactly the input with identities assigned in
    /// order, and the keyword index is exactly the index owed for the
    /// input: nothing of the old state survives.
    pub fn reload(&mut self, vs: &Vec<Restaurant>)
        requires
            old(self).next_id + vs@.len() < i32::MAX,
            old(self).wf(),
        ensures
            final (self).wf(),
            final (self).rows@ == spec_assign_ids(vs@, old(self).next_id as int),
            final (self).next_id == old(self).next_id + vs@.len(),
            final (self).keywords@.len() == spec_keyword_views(
                vs@,
                old(self).next_id as int,
            ).len(),
            forall|k: int|
                0 <= k < final (self).keywords@.len() ==> {
                    let owed = spec_keyword_views(vs@, old(self).next_id as int);
                    (#[trigger] final (self).keywords@[k]).keyword@ == owed[k].0 && final (
                    self).keywords@[k].idrestaurant as int == owed[k].1 && final (
                    self).keywords@[k].idcat == 2
                },
    {
        let ghost base = self.next_id as int;
        self.clear();
        let mut i: usize = 0;
        while i < vs.len()
            invariant
                i <= vs@.len(),
                self.wf(),
                base + vs@.len() < i32::MAX,
                self.next_id == base + i,
                self.rows@ == spec_assign_ids(vs@.take(i as int), base),
                self.keywords@.len() == spec_keyword_views(vs@.take(i as int), base).len(),
                forall|k: int|
                    0 <= k < self.keywords@.len() ==> {
                        let owed = spec_keyword_views(vs@.take(i as int), base);
                        (#[trigger] self.keywords@[k]).keyword@ == owed[k].0
                            && self.keywords@[k].idrestaurant as int == owed[k].1
                            && self.keywords@[k].idcat == 2
                    },
            decreases vs@.len() - i,
        {
            let ghost kw_pre = self.keywords@;
            let ghost owed_pre = spec_keyword_views(vs@.take(i as int), base);
            let v = dup_restaurant(&vs[i]);
            let stored = self.create(v);
            proof {
                assert(vs@.take(i as int + 1).drop_last() =~= vs@.take(i as int));
                assert(vs@.take(i as int + 1).last() == vs@[i as int]);
                assert(self.rows@ =~= spec_assign_ids(vs@.take(i as int + 1), base));
                let owed_now = spec_keyword_views(vs@.take(i as int + 1), base);
                let fresh = spec_tokenize(vs@[i as int].name@).map_values(
                    |t: Seq<char>| (t, base + i),
                );
                assert(owed_now == owed_pre + fresh);
                assert forall|k: int| 0 <= k < self.keywords@.len() implies (
                #[trigger] self.keywords@[k]).keyword@ == owed_now[k].0
                    && self.keywords@[k].idrestaurant as int == owed_now[k].1
                    && self.keywords@[k].idcat == 2 by {
                    if k < kw_pre.len() {
                        assert(self.keywords@[k] == kw_pre[k]);
                        assert(owed_now[k] == owed_pre[k]);
                    } else {
                        assert(owed_now[k] == fresh[k - kw_pre.len()]);
                    }
                }
            }
            i = i + 1;
        }
        proof {
            assert(vs@.take(vs@.len() as int) =~= vs@);
        }
    }
}

/// Reloading twice with identical scraped input yields an identical
/// stored set: the rows after a reload depend, identity aside, only on
/// the input — old rows are fully replaced and nothing is duplicated.
pub proof fn lemma_reload_idempotent(vs: Seq<Restaurant>, base1: int, base2: int)
    ensures
        spec_contents(spec_assign_ids(vs, base1)) == spec_contents(spec_assign_ids(vs, base2)),
        spec_assign_ids(vs, base1).len() == vs.len(),
        spec_assign_ids(vs, base2).len() == vs.len(),
{
    assert(spec_contents(spec_assign_ids(vs, base1)) =~= spec_contents(
        spec_assign_ids(vs, base2),
    ));
}

} // verus!
