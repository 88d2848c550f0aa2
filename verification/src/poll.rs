use vstd::prelude::*;
use crate::json::{JsonValue, spec_get, spec_as_bool};

verus! {

/// The "complete" flag of a job-status document, when the document carries
/// one as a boolean.
pub open spec fn complete_flag(status: JsonValue) -> Option<bool> {
    match spec_get(status, "complete"@) {
        Some(v) => spec_as_bool(v),
        None => None,
    }
}

/// Whether a status document carries a boolean "complete" flag at all; the
/// poller demands this of every status it inspects.
pub open spec fn has_complete_flag(status: JsonValue) -> bool {
    complete_flag(status) is Some
}

pub open spec fn is_complete(status: JsonValue) -> bool {
    complete_flag(status) == Some(true)
}

/// The rows of a completed status document: the array under "data.results",
/// and the empty sequence where that path is absent or not an array.
pub open spec fn results_of(status: JsonValue) -> Seq<JsonValue> {
    match spec_get(status, "data"@) {
        Some(d) => match spec_get(d, "results"@) {
            Some(JsonValue::Arr(a)) => a@,
            _ => Seq::empty(),
        },
        None => Seq::empty(),
    }
}

/// The variant a single result row contributes for `column`: the string
/// under "data.<column>", and nothing where that field is absent or not a
/// string. A malformed row is skipped, never fatal.
pub open spec fn variant_of(entry: JsonValue, column: Seq<char>) -> Option<Seq<char>> {
    match spec_get(entry, "data"@) {
        Some(d) => match spec_get(d, column) {
            Some(JsonValue::Text(s)) => Some(s@),
            _ => None,
        },
        None => None,
    }
}

/// All variants the result rows contribute, in row order.
pub open spec fn variants_from(results: Seq<JsonValue>, column: Seq<char>) -> Seq<Seq<char>>
    decreases results.len(),
{
    if results.len() == 0 {
        Seq::empty()
    } else {
        let pre = variants_from(results.drop_last(), column);
        match variant_of(results.last(), column) {
            Some(s) => pre.push(s),
            None => pre,
        }
    }
}

/// The payload a completed status document yields for `column`. Absent or
/// malformed sub-fields yield an empty or partial payload, never an error.
pub open spec fn spec_variants(status: JsonValue, column: Seq<char>) -> Seq<Seq<char>> {
    variants_from(results_of(status), column)
}

/// Extracts the payload of a status document: one string per result row that
/// carries one under "data.<column>", in row order.
pub fn extract_variants(status: &JsonValue, column: &str) -> (r: Vec<String>)
    ensures
        r@.map_values(|s: String| s@) == spec_variants(*status, column@),
{
    let mut out: Vec<String> = Vec::new();
    let rows: Option<&Vec<JsonValue>> = match status.get("data") {
        Some(d) => match d.get("results") {
            Some(v) => v.as_array(),
            None => None,
        },
        None => None,
    };
    match rows {
        None => {
            proof {
                assert(out@.map_values(|s: String| s@) =~= spec_variants(*status, column@));
            }
            out
        },
        Some(a) => {
            let mut i: usize = 0;
            proof {
                assert(a@.take(0) =~= Seq::<JsonValue>::empty());
                assert(out@.map_values(|s: String| s@) =~= variants_from(a@.take(0), column@));
            }
            while i < a.len()
                invariant
                    i <= a@.len(),
                    results_of(*status) == a@,
                    out@.map_values(|s: String| s@) == variants_from(a@.take(i as int), column@),
                decreases a@.len() - i,
            {
                proof {
                    assert(a@.take(i as int + 1).drop_last() =~= a@.take(i as int));
                    assert(a@.take(i as int + 1).last() == a@[i as int]);
                }
                let row: &JsonValue = &a[i];
                match row.get("data") {
                    Some(d) => match d.get(column) {
                        Some(v) => match v.as_text() {
                            Some(s) => {
                                let ghost before = out@;
                                out.push(s.clone());
                                proof {
                                    assert(out@.map_values(|s: String| s@) =~= before.map_values(
                                        |s: String| s@,
                                    ).push(s@));
                                }
                            },
                            None => {},
                        },
                        None => {},
                    },
                    None => {},
                }
                i = i + 1;
            }
            proof {
                assert(a@.take(a@.len() as int) =~= a@);
            }
            out
        },
    }
}

/// A run of the poller: the payload, how many status fetches it made, and
/// whether the job ever reported completion (distinguishing "finished with
/// an empty payload" from "budget exhausted first").
pub struct PollReport {
    pub variants: Vec<String>,
    pub fetches: u32,
    pub completed: bool,
}

/// The poll loop against a sequence of status documents: fetch, stop on a
/// true "complete" flag, otherwise sleep and fetch again, up to `budget`
/// fetches. Yields (payload views, fetches made, completed). On exhaustion
/// the payload is the best available: empty.
pub open spec fn spec_poll(polls: Seq<JsonValue>, column: Seq<char>, budget: nat) -> (Seq<
    Seq<char>,
>, nat, bool)
    decreases budget,
{
    if budget == 0 {
        (Seq::empty(), 0, false)
    } else if is_complete(polls[0]) {
        (spec_variants(polls[0], column), 1, true)
    } else {
        let rec = spec_poll(polls.skip(1), column, (budget - 1) as nat);
        (rec.0, rec.1 + 1, rec.2)
    }
}

fn poll_from(polls: &Vec<JsonValue>, column: &str, budget: u32, start: usize) -> (r: PollReport)
    requires
        start + budget <= polls@.len(),
        forall|i: int| 0 <= i < polls@.len() ==> has_complete_flag(#[trigger] polls@[i]),
    ensures
        ({
            let (vs, n, c) = spec_poll(polls@.skip(start as int), column@, budget as nat);
            r.variants@.map_values(|s: String| s@) == vs && r.fetches as nat == n && r.completed
                == c && r.fetches <= budget
        }),
    decreases budget,
{
    if budget == 0 {
        return PollReport { variants: Vec::new(), fetches: 0, completed: false };
    }
    proof {
        assert(polls@.len() == polls.len());
        assert(polls@.skip(start as int)[0] == polls@[start as int]);
        assert(polls@.skip(start as int).skip(1) =~= polls@.skip(start as int + 1));
    }
    let status: &JsonValue = &polls[start];
    let flag: bool = match status.get("complete") {
        Some(v) => match v.as_bool() {
            Some(b) => b,
            None => false,
        },
        None => false,
    };
    if flag {
        let variants = extract_variants(status, column);
        PollReport { variants, fetches: 1, completed: true }
    } else {
        let rec = poll_from(polls, column, budget - 1, start + 1);
        PollReport { variants: rec.variants, fetches: rec.fetches + 1, completed: rec.completed }
    }
}

/// The asynchronous-result poller, run against the sequence of status
/// documents that successive fetches would observe. Every status must carry
/// a boolean "complete" flag. It stops at the first status whose flag is
/// true and extracts the payload; with the budget exhausted first, it
/// reports an empty payload and `completed == false`. One sleep separates
/// consecutive fetches, so a run sleeps `fetches - 1` times when it
/// completes and `fetches` times when the budget runs out.
pub fn poll_script(polls: &Vec<JsonValue>, column: &str, budget: u32) -> (r: PollReport)
    requires
        budget <= polls@.len(),
        forall|i: int| 0 <= i < polls@.len() ==> has_complete_flag(#[trigger] polls@[i]),
    ensures
        ({
            let (vs, n, c) = spec_poll(polls@, column@, budget as nat);
            r.variants@.map_values(|s: String| s@) == vs && r.fetches as nat == n && r.completed
                == c && r.fetches <= budget
        }),
{
    proof {
        assert(polls@.skip(0) =~= polls@);
    }
    poll_from(polls, column, budget, 0)
}

/// Poll law, completion side: when the job first reports completion on fetch
/// `k` within the budget, the poller returns that status's payload after
/// exactly `k` fetches.
pub proof fn lemma_poll_completion(polls: Seq<JsonValue>, column: Seq<char>, budget: nat, k: nat)
    requires
        1 <= k <= budget,
        k <= polls.len(),
        forall|i: int| 0 <= i < k - 1 ==> !is_complete(#[trigger] polls[i]),
        is_complete(polls[k - 1]),
    ensures
        spec_poll(polls, column, budget) == (spec_variants(polls[k - 1], column), k, true),
    decreases k,
{
    if k == 1 {
        assert(spec_poll(polls, column, budget) == (spec_variants(polls[0], column), 1nat, true));
    } else {
        assert(!is_complete(polls[0]));
        assert(forall|i: int| 0 <= i < k - 2 ==> !is_complete(#[trigger] polls.skip(1)[i]));
        assert(polls.skip(1)[k - 2] == polls[k - 1]);
        lemma_poll_completion(polls.skip(1), column, (budget - 1) as nat, (k - 1) as nat);
    }
}

/// Poll law, exhaustion side: when the job never reports completion within
/// the budget, the poller returns after exactly `budget` fetches with an
/// empty payload, never blocking beyond its budget.
pub proof fn lemma_poll_exhaustion(polls: Seq<JsonValue>, column: Seq<char>, budget: nat)
    requires
        budget <= polls.len(),
        forall|i: int| 0 <= i < budget ==> !is_complete(#[trigger] polls[i]),
    ensures
        spec_poll(polls, column, budget) == (Seq::<Seq<char>>::empty(), budget, false),
    decreases budget,
{
    if budget > 0 {
        assert(!is_complete(polls[0]));
        assert(forall|i: int| 0 <= i < budget - 1 ==> !is_complete(#[trigger] polls.skip(1)[i]));
        lemma_poll_exhaustion(polls.skip(1), column, (budget - 1) as nat);
    }
}

} // verus!
