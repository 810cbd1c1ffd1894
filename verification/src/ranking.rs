//! Ordering of scanned records: the store returns entries in no particular
//! order, and each typed listing imposes its own.

use vstd::multiset::Multiset;
use vstd::prelude::*;
use vstd::seq_lib::{to_multiset_build, to_multiset_insert};

verus! {

/// A type whose values a listing ranks.
pub trait Ranked: Sized {
    /// Whether `self` may stand before `other` in a ranked listing.
    spec fn ranks_before(&self, other: &Self) -> bool;

    /// Decides [`Ranked::ranks_before`].
    fn before(&self, other: &Self) -> (yes: bool)
        ensures
            yes == self.ranks_before(other),
    ;

    /// Any two values are ranked one way or the other.
    proof fn lemma_total(a: &Self, b: &Self)
        ensures
            a.ranks_before(b) || b.ranks_before(a),
    ;

    /// Ranking is transitive.
    proof fn lemma_transitive(a: &Self, b: &Self, c: &Self)
        requires
            a.ranks_before(b),
            b.ranks_before(c),
        ensures
            a.ranks_before(c),
    ;
}

/// Whether every item stands before all that follow it.
pub open spec fn is_ranked<T: Ranked>(items: Seq<T>) -> bool {
    forall|i: int, j: int|
        #![trigger items[i], items[j]]
        0 <= i < j < items.len() ==> items[i].ranks_before(&items[j])
}

/// Whether `ranked` holds the items of `items`, each as often, in ranked order.
pub open spec fn is_ranking_of<T: Ranked>(ranked: Seq<T>, items: Seq<T>) -> bool {
    is_ranked(ranked) && ranked.to_multiset() == items.to_multiset()
}

/// Whether `chosen` is the start of some ranking of `items`, cut off at `limit`.
pub open spec fn is_top_of<T: Ranked>(chosen: Seq<T>, items: Seq<T>, limit: nat) -> bool {
    exists|ranked: Seq<T>| #[trigger]
        is_ranking_of(ranked, items) && chosen == ranked.take(
            if limit < ranked.len() {
                limit as int
            } else {
                ranked.len() as int
            },
        )
}

/// Returns the items in ranked order.
pub fn sort_ranked<T: Ranked>(items: Vec<T>) -> (ranked: Vec<T>)
    ensures
        is_ranking_of(ranked@, items@),
{
    let ghost given = items@;
    let mut pending = items;
    let mut ranked: Vec<T> = Vec::new();
    proof {
        assert(ranked@.to_multiset() =~= Multiset::<T>::empty()) by {
            ranked@.to_multiset_ensures();
        }
        assert(ranked@.to_multiset().add(pending@.to_multiset()) =~= given.to_multiset());
    }
    while pending.len() > 0
        invariant
            is_ranked(ranked@),
            ranked@.to_multiset().add(pending@.to_multiset()) == given.to_multiset(),
        decreases pending.len(),
    {
        let ghost before_pending = pending@;
        let item = pending.pop().unwrap();
        proof {
            assert(before_pending =~= pending@.push(item));
            to_multiset_build(pending@, item);
        }
        let mut at: usize = 0;
        while at < ranked.len() && !item.before(&ranked[at])
            invariant
                at <= ranked.len(),
                is_ranked(ranked@),
                forall|q: int| 0 <= q < at ==> !item.ranks_before(&#[trigger] ranked@[q]),
            decreases ranked.len() - at,
        {
            at = at + 1;
        }
        let ghost before_ranked = ranked@;
        ranked.insert(at, item);
        proof {
            to_multiset_insert(before_ranked, at as int, item);
            assert(ranked@.to_multiset().add(pending@.to_multiset()) =~= given.to_multiset());
            assert forall|i: int, j: int|
                #![trigger ranked@[i], ranked@[j]]
                0 <= i < j < ranked@.len() implies ranked@[i].ranks_before(&ranked@[j]) by {
                if j < at {
                    assert(ranked@[i] == before_ranked[i]);
                    assert(ranked@[j] == before_ranked[j]);
                } else if j == at {
                    assert(ranked@[i] == before_ranked[i]);
                    T::lemma_total(&item, &before_ranked[i]);
                } else if i < at {
                    assert(ranked@[i] == before_ranked[i]);
                    assert(ranked@[j] == before_ranked[j - 1]);
                } else if i == at {
                    assert(ranked@[j] == before_ranked[j - 1]);
                    if j - 1 > at {
                        T::lemma_transitive(&item, &before_ranked[at as int], &before_ranked[j - 1]);
                    }
                } else {
                    assert(ranked@[i] == before_ranked[i - 1]);
                    assert(ranked@[j] == before_ranked[j - 1]);
                }
            }
        }
    }
    proof {
        assert(pending@.to_multiset() =~= Multiset::<T>::empty()) by {
            pending@.to_multiset_ensures();
        }
        assert(ranked@.to_multiset() =~= given.to_multiset());
    }
    ranked
}

/// Returns the first `limit` items of the ranked order.
pub fn top_ranked<T: Ranked>(items: Vec<T>, limit: usize) -> (chosen: Vec<T>)
    ensures
        is_top_of(chosen@, items@, limit as nat),
        chosen@.len() <= limit,
        is_ranked(chosen@),
{
    let mut ranked = sort_ranked(items);
    let ghost full = ranked@;
    if limit < ranked.len() {
        ranked.truncate(limit);
    }
    proof {
        assert(ranked@ =~= full.take(
            if limit < full.len() {
                limit as int
            } else {
                full.len() as int
            },
        ));
        assert(is_ranking_of(full, items@));
    }
    ranked
}

} // verus!
