use vstd::prelude::*;
use crate::json::{JsonValue, json_of};
use crate::transport::{FetchError, TransportEvent, interpret_response};
use crate::{RATE_LIMIT_STATUS, is_rate_limited};

verus! {

/// Remaining attempts of one retrying request. Created fresh per request,
/// decremented only on a rate-limited reply, discarded afterwards.
pub struct RetryState {
    pub remaining: u32,
}

impl RetryState {
    pub fn new(budget: u32) -> (s: Self)
        ensures
            s.remaining == budget,
    {
        RetryState { remaining: budget }
    }

    /// True while another attempt may still be made.
    pub fn can_attempt(&self) -> (r: bool)
        ensures
            r == (self.remaining > 0),
    {
        self.remaining > 0
    }

    /// Consumes one attempt after a rate-limited reply; the caller backs off
    /// for the configured delay before the next attempt.
    pub fn absorb_rate_limit(&mut self)
        requires
            old(self).remaining > 0,
        ensures
            final(self).remaining == old(self).remaining - 1,
    {
        self.remaining = self.remaining - 1;
    }
}

/// True for a reply whose status is the rate-limit signal.
pub open spec fn rate_limited_event(e: TransportEvent) -> bool {
    e matches TransportEvent::Replied { response } && response.status == RATE_LIMIT_STATUS
}

/// The outcome of the retrying executor run against a sequence of transport
/// events, together with the number of backoff sleeps taken: one sleep per
/// rate-limited reply absorbed. Consumes one event per attempt; a connection
/// failure propagates at once, a rate-limited reply costs one attempt, and
/// any other reply is decoded and ends the run.
pub open spec fn spec_execute(events: Seq<TransportEvent>, budget: nat) -> (Result<
    JsonValue,
    FetchError,
>, nat)
    decreases budget,
{
    if budget == 0 {
        (Err(FetchError::TooManyRetries), 0)
    } else {
        match events[0] {
            TransportEvent::Failed { message } => (Err(FetchError::Transport { message }), 0),
            TransportEvent::Replied { response } => {
                if response.status == RATE_LIMIT_STATUS {
                    let rec = spec_execute(events.skip(1), (budget - 1) as nat);
                    (rec.0, rec.1 + 1)
                } else {
                    match json_of(response.body@) {
                        Some(v) => (Ok(v), 0),
                        None => (
                            (Err(FetchError::Decode {
                                status: response.status,
                                headers: response.headers,
                                body: response.body,
                            })),
                            0,
                        ),
                    }
                }
            },
        }
    }
}

/// What a run of the retrying executor reported: the final outcome and how
/// many backoff sleeps the run asked for.
pub struct ExecReport {
    pub outcome: Result<JsonValue, FetchError>,
    pub sleeps: u32,
}

fn execute_from(events: &Vec<TransportEvent>, budget: u32, start: usize) -> (r: ExecReport)
    requires
        start + budget <= events@.len(),
    ensures
        ({
            let (o, s) = spec_execute(events@.skip(start as int), budget as nat);
            r.outcome == o && r.sleeps as nat == s && r.sleeps <= budget
        }),
    decreases budget,
{
    if budget == 0 {
        return ExecReport { outcome: Err(FetchError::TooManyRetries), sleeps: 0 };
    }
    proof {
        assert(events@.len() == events.len());
        assert(events@.skip(start as int)[0] == events@[start as int]);
        assert(events@.skip(start as int).skip(1) =~= events@.skip(start as int + 1));
    }
    match &events[start] {
        TransportEvent::Failed { message } => ExecReport {
            outcome: Err(FetchError::Transport { message: message.clone() }),
            sleeps: 0,
        },
        TransportEvent::Replied { response } => {
            if is_rate_limited(response.status) {
                let rec = execute_from(events, budget - 1, start + 1);
                ExecReport { outcome: rec.outcome, sleeps: rec.sleeps + 1 }
            } else {
                ExecReport { outcome: interpret_response(response), sleeps: 0 }
            }
        },
    }
}

/// The retrying request executor, run against the sequence of transport
/// events that successive attempts would observe: absorbs rate-limited
/// replies while the budget lasts, sleeping once per absorption; propagates
/// a connection failure at once; decodes the first other reply. With the
/// budget exhausted the outcome is `TooManyRetries`.
pub fn execute_script(events: &Vec<TransportEvent>, budget: u32) -> (r: ExecReport)
    requires
        budget <= events@.len(),
    ensures
        ({
            let (o, s) = spec_execute(events@, budget as nat);
            r.outcome == o && r.sleeps as nat == s && r.sleeps <= budget
        }),
{
    proof {
        assert(events@.skip(0) =~= events@);
    }
    execute_from(events, budget, 0)
}

/// Retry law, success side: when the first `n` events are rate-limited
/// replies with `n` below the budget, and the next reply is not rate-limited
/// and carries valid JSON, the executor succeeds with that document after
/// exactly `n` sleeps.
pub proof fn lemma_retry_success(events: Seq<TransportEvent>, budget: nat, n: nat, v: JsonValue)
    requires
        n < budget,
        n < events.len(),
        forall|i: int| 0 <= i < n ==> rate_limited_event(#[trigger] events[i]),
        !rate_limited_event(events[n as int]),
        events[n as int] matches TransportEvent::Replied { response }
            && json_of(response.body@) == Some(v),
    ensures
        spec_execute(events, budget) == (Result::<JsonValue, FetchError>::Ok(v), n),
    decreases n,
{
    if n == 0 {
        assert(spec_execute(events, budget) == (Result::<JsonValue, FetchError>::Ok(v), 0nat));
    } else {
        assert(rate_limited_event(events[0]));
        assert(forall|i: int|
            0 <= i < n - 1 ==> rate_limited_event(#[trigger] events.skip(1)[i]));
        assert(events.skip(1)[n - 1] == events[n as int]);
        lemma_retry_success(events.skip(1), (budget - 1) as nat, (n - 1) as nat, v);
    }
}

/// Retry law, failure side: when the first `budget` events are all
/// rate-limited replies, the executor gives up with `TooManyRetries` after
/// exactly `budget` sleeps.
pub proof fn lemma_retry_exhaustion(events: Seq<TransportEvent>, budget: nat)
    requires
        budget <= events.len(),
        forall|i: int| 0 <= i < budget ==> rate_limited_event(#[trigger] events[i]),
    ensures
        spec_execute(events, budget) == (
            Result::<JsonValue, FetchError>::Err(FetchError::TooManyRetries),
            budget,
        ),
    decreases budget,
{
    if budget > 0 {
        assert(rate_limited_event(events[0]));
        assert(forall|i: int|
            0 <= i < budget - 1 ==> rate_limited_event(#[trigger] events.skip(1)[i]));
        lemma_retry_exhaustion(events.skip(1), (budget - 1) as nat);
    }
}

/// Decode law: a first reply that is not rate-limited but carries invalid
/// JSON fails at once with a `Decode` error holding the raw reply, after zero
/// sleeps and zero retries.
pub proof fn lemma_decode_fails_immediately(events: Seq<TransportEvent>, budget: nat)
    requires
        budget > 0,
        events.len() > 0,
        events[0] matches TransportEvent::Replied { response }
            && response.status != RATE_LIMIT_STATUS && json_of(response.body@) is None,
    ensures
        events[0] matches TransportEvent::Replied { response } ==> spec_execute(events, budget)
            == (
            Result::<JsonValue, FetchError>::Err(FetchError::Decode {
                status: response.status,
                headers: response.headers,
                body: response.body,
            }),
            0nat,
        ),
{
}

} // verus!
