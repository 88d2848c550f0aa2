use vstd::prelude::*;
use crate::ordered::covered;

verus! {

/// Some result row carries `item` as its work item.
pub open spec fn delivers<T>(results: Seq<(String, T)>, item: String) -> bool {
    exists|p: int| 0 <= p < results.len() && (#[trigger] results[p]).0 == item
}

/// How many fetches the bounded aggregator has started before completion
/// number `p`: the queue is drained greedily, so this is `limit + p` capped
/// at the number of items.
pub open spec fn started_before(n: int, limit: int, p: int) -> int {
    if limit + p < n {
        limit + p
    } else {
        n
    }
}

/// How many fetches are in flight while completion number `p` is awaited.
pub open spec fn in_flight_at(n: int, limit: int, p: int) -> int {
    started_before(n, limit, p) - p
}

/// Concurrency-cap law: at no point does the bounded aggregator have more
/// than `limit` fetches in flight.
pub proof fn lemma_bounded_concurrency(n: int, limit: int, p: int)
    requires
        0 <= p <= n,
        1 <= limit,
    ensures
        in_flight_at(n, limit, p) <= limit,
{
}

/// Some position of `picks` holds `i`.
pub open spec fn picked(picks: Seq<int>, i: int) -> bool {
    exists|p: int| 0 <= p < picks.len() && #[trigger] picks[p] == i
}

/// Selecting each index of `items` exactly once, in any order, keeps exactly
/// the items: the multiset of the selection equals the multiset of `items`.
pub proof fn lemma_selection_multiset(items: Seq<String>, picks: Seq<int>)
    requires
        picks.len() == items.len(),
        forall|p: int| 0 <= p < picks.len() ==> 0 <= #[trigger] picks[p] < items.len(),
        forall|p: int, q: int| 0 <= p < q < picks.len() ==> picks[p] != picks[q],
        forall|i: int| 0 <= i < items.len() ==> picked(picks, i),
    ensures
        picks.map_values(|j: int| items[j]).to_multiset() == items.to_multiset(),
    decreases items.len(),
{
    broadcast use vstd::seq_lib::group_to_multiset_ensures;

    let mapped = picks.map_values(|j: int| items[j]);
    if items.len() == 0 {
        assert(mapped =~= Seq::<String>::empty());
        assert(mapped.to_multiset() =~= items.to_multiset());
    } else {
        let n = items.len() as int;
        let last = items[n - 1];
        assert(picked(picks, n - 1));
        let q = choose|p: int| 0 <= p < picks.len() && #[trigger] picks[p] == n - 1;
        let picks2 = picks.remove(q);
        let items2 = items.drop_last();
        assert(picks2.len() == items2.len());
        assert forall|p: int| 0 <= p < picks2.len() implies 0 <= #[trigger] picks2[p]
            < items2.len() by {
            if p < q {
                assert(picks2[p] == picks[p]);
                assert(picks[p] != n - 1);
            } else {
                assert(picks2[p] == picks[p + 1]);
                assert(picks[p + 1] != n - 1);
            }
        }
        assert forall|p: int, r: int|
            0 <= p < r < picks2.len() implies picks2[p] != picks2[r] by {
            assert(picks2[p] == if p < q {
                picks[p]
            } else {
                picks[p + 1]
            });
            assert(picks2[r] == if r < q {
                picks[r]
            } else {
                picks[r + 1]
            });
        }
        assert forall|i: int| 0 <= i < items2.len() implies picked(picks2, i) by {
            assert(picked(picks, i));
            let p0 = choose|p: int| 0 <= p < picks.len() && #[trigger] picks[p] == i;
            assert(p0 != q);
            if p0 < q {
                assert(picks2[p0] == i);
            } else {
                assert(picks2[p0 - 1] == i);
            }
        }
        lemma_selection_multiset(items2, picks2);
        let mapped2 = picks2.map_values(|j: int| items2[j]);
        assert(mapped2 =~= mapped.remove(q)) by {
            assert forall|p: int|
                0 <= p < mapped2.len() implies mapped2[p] == mapped.remove(q)[p] by {
                if p < q {
                    assert(picks2[p] == picks[p]);
                    assert(items2[picks2[p]] == items[picks[p]]);
                } else {
                    assert(picks2[p] == picks[p + 1]);
                    assert(items2[picks2[p]] == items[picks[p + 1]]);
                }
            }
        }
        assert(mapped.remove(q).to_multiset() =~= mapped.to_multiset().remove(mapped[q]));
        assert(mapped[q] == last);
        assert(items =~= items2.push(last));
        assert(items.to_multiset() =~= items2.to_multiset().insert(last));
        assert(mapped.to_multiset().contains(last)) by {
            assert(mapped[q] == last);
            assert(mapped.contains(last));
        }
        assert(mapped.to_multiset() =~= mapped.to_multiset().remove(last).insert(last));
        assert(mapped.to_multiset() =~= items.to_multiset());
    }
}

/// Exact-cover law: the work items a bounded aggregation delivers are
/// exactly the input items, with no duplicates and no omissions, whatever
/// the completion order was.
pub proof fn lemma_bounded_exact_cover<T>(
    items: Seq<String>,
    completions: Seq<(usize, T)>,
    results: Seq<(String, T)>,
)
    requires
        completions.len() == items.len(),
        results.len() == items.len(),
        forall|p: int| 0 <= p < completions.len() ==> (#[trigger] completions[p]).0 < items.len(),
        forall|p: int, q: int|
            0 <= p < q < completions.len() ==> completions[p].0 != completions[q].0,
        forall|i: int| 0 <= i < items.len() ==> covered(completions, i),
        forall|p: int|
            0 <= p < results.len() ==> (#[trigger] results[p]).0 == items[completions[p].0 as int],
    ensures
        results.map_values(|r: (String, T)| r.0).to_multiset() == items.to_multiset(),
{
    let picks = completions.map_values(|c: (usize, T)| c.0 as int);
    assert forall|i: int| 0 <= i < items.len() implies picked(picks, i) by {
        assert(covered(completions, i));
        let p0 = choose|p: int|
            0 <= p < completions.len() && (#[trigger] completions[p]).0 == i;
        assert(picks[p0] == i);
    }
    lemma_selection_multiset(items, picks);
    assert(results.map_values(|r: (String, T)| r.0) =~= picks.map_values(|j: int| items[j]));
}

/// What a run of the bounded aggregator reported: every item paired with its
/// outcome in completion order, and the highest number of fetches that were
/// ever in flight at once.
pub struct BoundedReport<T> {
    pub results: Vec<(String, T)>,
    pub peak_in_flight: usize,
}

/// The bounded parallel aggregator. `items` is the input collection;
/// `completions` holds one `(index, outcome)` pair per item in the order the
/// fetches finished, where an index may only finish after the greedy
/// schedule has started it (no more than `limit` fetches are ever in
/// flight, so completion `p` can only name one of the first `limit + p`
/// items). The result pairs every item with its own outcome, in completion
/// order: the full input is covered exactly once, with no order promised
/// beyond that, and the peak number of in-flight fetches is reported and
/// never exceeds `limit`.
pub fn aggregate_bounded<T>(items: &Vec<String>, limit: usize, completions: Vec<(usize, T)>) -> (r:
    BoundedReport<T>)
    requires
        limit >= 1,
        completions@.len() == items@.len(),
        forall|p: int|
            0 <= p < completions@.len() ==> (#[trigger] completions@[p]).0 < items@.len(),
        forall|p: int, q: int|
            0 <= p < q < completions@.len() ==> completions@[p].0 != completions@[q].0,
        forall|i: int| 0 <= i < items@.len() ==> covered(completions@, i),
        forall|p: int|
            0 <= p < completions@.len() ==> (#[trigger] completions@[p]).0 < limit + p,
    ensures
        r.results@.len() == items@.len(),
        forall|p: int|
            0 <= p < completions@.len() ==> (#[trigger] r.results@[p]).0
                == items@[completions@[p].0 as int],
        forall|p: int|
            0 <= p < completions@.len() ==> (#[trigger] r.results@[p]).1 == completions@[p].1,
        forall|i: int| 0 <= i < items@.len() ==> delivers(r.results@, #[trigger] items@[i]),
        r.peak_in_flight <= limit,
        r.peak_in_flight == if items@.len() < limit {
            items@.len() as int
        } else {
            limit as int
        },
{
    let ghost orig = completions@;
    let n: usize = items.len();
    let mut started: usize = 0;
    let mut in_flight: usize = 0;
    let mut peak: usize = 0;
    while started < n && in_flight < limit
        invariant
            started == in_flight,
            peak == started,
            started <= n,
            in_flight <= limit,
        decreases n - started,
    {
        started = started + 1;
        in_flight = in_flight + 1;
        peak = peak + 1;
    }
    let mut rest = completions;
    let mut results: Vec<(String, T)> = Vec::new();
    proof {
        assert(orig.subrange(0, orig.len() as int) =~= orig);
    }
    while results.len() < n
        invariant
            n == orig.len(),
            n == items@.len(),
            1 <= limit,
            results@.len() <= n,
            rest@.len() + results@.len() == n,
            rest@ == orig.subrange(results@.len() as int, n as int),
            started as int == started_before(n as int, limit as int, results@.len() as int),
            in_flight == started - results@.len(),
            peak == if n < limit {
                n as int
            } else {
                limit as int
            },
            forall|p: int| 0 <= p < orig.len() ==> (#[trigger] orig[p]).0 < n,
            forall|p: int| 0 <= p < orig.len() ==> (#[trigger] orig[p]).0 < limit + p,
            forall|p: int|
                0 <= p < results@.len() ==> (#[trigger] results@[p]).0 == items@[orig[p].0 as int],
            forall|p: int|
                0 <= p < results@.len() ==> (#[trigger] results@[p]).1 == orig[p].1,
        decreases n - results@.len(),
    {
        let ghost done = results@.len() as int;
        proof {
            assert(rest@[0] == orig.subrange(done, n as int)[0]);
        }
        let pair: (usize, T) = rest.remove(0);
        let (idx, v) = pair;
        proof {
            assert(orig[done] == (idx, v));
            assert(idx < started);
            assert(rest@ =~= orig.subrange(done + 1, n as int));
        }
        results.push((items[idx].clone(), v));
        in_flight = in_flight - 1;
        if started < n {
            started = started + 1;
            in_flight = in_flight + 1;
            if in_flight > peak {
                peak = in_flight;
            }
        }
    }
    proof {
        assert(forall|i: int| 0 <= i < n ==> covered(orig, i));
        assert forall|i: int| 0 <= i < items@.len() implies delivers(
            results@,
            #[trigger] items@[i],
        ) by {
            assert(covered(orig, i));
            let p = choose|p: int| 0 <= p < orig.len() && (#[trigger] orig[p]).0 == i;
            assert(results@[p].0 == items@[i]);
        }
    }
    BoundedReport { results, peak_in_flight: peak }
}

} // verus!
