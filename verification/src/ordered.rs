use vstd::prelude::*;

verus! {

/// Some completion carries `i` as its item index.
pub open spec fn covered<T>(completions: Seq<(usize, T)>, i: int) -> bool {
    exists|p: int| 0 <= p < completions.len() && (#[trigger] completions[p]).0 == i
}

/// The ordered parallel aggregator's delivery step. `items` is the input
/// sequence; `completions` holds one `(index, outcome)` pair per item, in
/// the order the fetches happened to finish. The result pairs every item
/// with its own outcome, in input order, whatever the completion order was:
/// completed-but-not-yet-deliverable outcomes are buffered until every
/// earlier item's outcome is in place.
pub fn deliver_ordered<T>(items: &Vec<String>, completions: Vec<(usize, T)>) -> (r: Vec<
    (String, T),
>)
    requires
        completions@.len() == items@.len(),
        forall|p: int|
            0 <= p < completions@.len() ==> (#[trigger] completions@[p]).0 < items@.len(),
        forall|p: int, q: int|
            0 <= p < q < completions@.len() ==> completions@[p].0 != completions@[q].0,
        forall|i: int| 0 <= i < items@.len() ==> covered(completions@, i),
    ensures
        r@.len() == items@.len(),
        forall|i: int| 0 <= i < r@.len() ==> (#[trigger] r@[i]).0 == items@[i],
        forall|p: int|
            0 <= p < completions@.len() ==> r@[(#[trigger] completions@[p]).0 as int].1
                == completions@[p].1,
{
    let ghost orig = completions@;
    let n: usize = items.len();
    let mut slots: Vec<Option<T>> = Vec::new();
    while slots.len() < n
        invariant
            slots@.len() <= n,
        decreases n - slots@.len(),
    {
        slots.push(None);
    }
    let mut rest = completions;
    proof {
        assert(orig.subrange(0, orig.len() as int) =~= orig);
    }
    while rest.len() > 0
        invariant
            slots@.len() == n,
            n == orig.len(),
            rest@.len() <= orig.len(),
            rest@ == orig.subrange(0, rest@.len() as int),
            forall|p: int| 0 <= p < orig.len() ==> (#[trigger] orig[p]).0 < n,
            forall|p: int, q: int| 0 <= p < q < orig.len() ==> orig[p].0 != orig[q].0,
            forall|p: int|
                rest@.len() <= p < orig.len() ==> slots@[(#[trigger] orig[p]).0 as int] == Some(
                    orig[p].1,
                ),
        decreases rest@.len(),
    {
        let ghost before = rest@;
        let pair: Option<(usize, T)> = rest.pop();
        let (idx, v) = pair.unwrap();
        proof {
            assert(before[before.len() - 1] == orig.subrange(0, before.len() as int)[before.len()
                - 1]);
            assert(orig[rest@.len() as int] == (idx, v));
            assert(rest@ =~= orig.subrange(0, rest@.len() as int));
        }
        slots[idx] = Some(v);
    }
    let mut out: Vec<(String, T)> = Vec::new();
    let ghost full = slots@;
    let mut i: usize = 0;
    proof {
        assert(full.subrange(0, full.len() as int) =~= full);
    }
    while i < n
        invariant
            i <= n,
            n == orig.len(),
            n == items@.len(),
            full.len() == n,
            slots@ == full.subrange(i as int, n as int),
            out@.len() == i,
            forall|p: int| 0 <= p < orig.len() ==> (#[trigger] orig[p]).0 < n,
            forall|i2: int| 0 <= i2 < n ==> covered(orig, i2),
            forall|p: int|
                0 <= p < orig.len() ==> full[(#[trigger] orig[p]).0 as int] == Some(orig[p].1),
            forall|j: int| 0 <= j < i ==> (#[trigger] out@[j]).0 == items@[j],
            forall|j: int| 0 <= j < i ==> Some((#[trigger] out@[j]).1) == full[j],
        decreases n - i,
    {
        proof {
            assert(covered(orig, i as int));
            let p = choose|p: int| 0 <= p < orig.len() && (#[trigger] orig[p]).0 == i as int;
            assert(full[i as int] == Some(orig[p].1));
            assert(slots@[0] == full[i as int]);
        }
        let elem: Option<T> = slots.remove(0);
        let v: T = elem.unwrap();
        out.push((items[i].clone(), v));
        proof {
            assert(slots@ =~= full.subrange(i as int + 1, n as int));
        }
        i = i + 1;
    }
    proof {
        assert(forall|p: int|
            0 <= p < orig.len() ==> out@[(#[trigger] orig[p]).0 as int].1 == orig[p].1);
    }
    out
}

} // verus!
