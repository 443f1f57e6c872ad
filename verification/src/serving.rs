//! Request routing and error answers of the reranking HTTP service.

use vstd::prelude::*;
use vstd::arithmetic::div_mod::{
    lemma_fundamental_div_mod, lemma_fundamental_div_mod_converse, lemma_mod_equivalence,
    lemma_small_mod,
};

verus! {

/// Errors the reranking service answers a request with.
#[derive(Debug, Clone)]
pub enum RerankAPIError {
    /// The worker's reply could not be received.
    ChannelError(String),
    /// The worker failed to rerank.
    InferenceError(String),
    /// The worker could not be reached.
    WorkerUnavailableError,
}

impl RerankAPIError {
    /// The HTTP status of the answer: 503 when no worker can be reached,
    /// 500 otherwise.
    pub fn status_code(&self) -> (s: u16)
        ensures
            s == (if self is WorkerUnavailableError {
                503u16
            } else {
                500u16
            }),
    {
        match self {
            RerankAPIError::WorkerUnavailableError => 503,
            _ => 500,
        }
    }

    /// The body text of the answer.
    pub fn message(&self) -> (m: String)
        ensures
            m@ == match self {
                RerankAPIError::ChannelError(s) => "Error while trying to get a response from the worker: "@
                    + s@,
                RerankAPIError::InferenceError(s) => "Error while running inference: "@ + s@,
                RerankAPIError::WorkerUnavailableError => "The inference worker is unavailable"@,
            },
    {
        match self {
            RerankAPIError::ChannelError(s) => String::from_str(
                "Error while trying to get a response from the worker: ",
            ).concat(s.as_str()),
            RerankAPIError::InferenceError(s) => String::from_str(
                "Error while running inference: ",
            ).concat(s.as_str()),
            RerankAPIError::WorkerUnavailableError => String::from_str(
                "The inference worker is unavailable",
            ),
        }
    }
}

/// The error a request is answered with when its worker replied without a
/// response: the worker's error text, or "unknown error" when it gave none.
pub fn failed_reply(error: Option<String>) -> (e: RerankAPIError)
    ensures
        e matches RerankAPIError::InferenceError(m) && match error {
            Some(s) => m@ == s@,
            None => m@ == "unknown error"@,
        },
{
    match error {
        Some(s) => RerankAPIError::InferenceError(s),
        None => RerankAPIError::InferenceError(String::from_str("unknown error")),
    }
}

/// The worker that serves the `counter`-th request: workers take requests
/// in turn.
pub fn round_robin(counter: usize, workers: usize) -> (r: usize)
    requires
        workers > 0,
    ensures
        r == worker_for(counter as int, workers as int),
        r < workers,
{
    counter % workers
}

/// The worker that serves request number `counter` when there are
/// `workers` workers.
pub open spec fn worker_for(counter: int, workers: int) -> int {
    counter % workers
}

/// The first request numbered `counter` or later that goes to worker
/// `worker`.
pub open spec fn next_turn(worker: int, counter: int, workers: int) -> int {
    counter + (worker - counter) % workers
}

/// Workers take requests in turn: of the `workers` consecutive requests
/// numbered `counter` to `counter + workers - 1` (numbers that fit in
/// `usize`, so the counter has not wrapped), no two go to the same worker,
/// and each worker gets one of them, the one [`next_turn`] names.
pub proof fn lemma_round_robin_serves_each_worker_once(counter: usize, workers: usize)
    requires
        workers > 0,
        counter + workers - 1 <= usize::MAX,
    ensures
        forall|a: int, b: int|
            counter <= a < b < counter + workers ==> #[trigger] worker_for(a, workers as int)
                != #[trigger] worker_for(b, workers as int),
        forall|w: int|
            0 <= w < workers ==> {
                let t = #[trigger] next_turn(w, counter as int, workers as int);
                &&& counter <= t < counter + workers
                &&& worker_for(t, workers as int) == w
            },
{
    let n = workers as int;
    let c = counter as int;
    assert forall|a: int, b: int| c <= a < b < c + n implies #[trigger] worker_for(a, n) != #[trigger] worker_for(b, n) by {
        lemma_mod_equivalence(b, a, n);
        lemma_small_mod((b - a) as nat, n as nat);
    }
    assert forall|w: int| 0 <= w < n implies {
        let t = #[trigger] next_turn(w, c, n);
        &&& c <= t < c + n
        &&& worker_for(t, n) == w
    } by {
        lemma_fundamental_div_mod(w - c, n);
        let q = (w - c) / n;
        let m = (w - c) % n;
        let t = c + m;
        assert(t == (-q) * n + w) by (nonlinear_arith)
            requires
                w - c == n * q + m,
                t == c + m,
        ;
        lemma_fundamental_div_mod_converse(t, n, -q, w);
    }
}

/// Whether every worker has the property: all entries are `true`.
pub open spec fn all_workers(flags: Seq<bool>) -> bool {
    forall|i: int| 0 <= i < flags.len() ==> #[trigger] flags[i]
}

/// Every worker has the property exactly when no worker, the first included,
/// lacks it.
pub proof fn lemma_all_workers_checks_each(flags: Seq<bool>)
    ensures
        all_workers(flags) <==> forall|i: int| 0 <= i < flags.len() ==> flags[i],
        flags.len() > 0 && !flags[0] ==> !all_workers(flags),
{
}

/// Whether every flag is set.
fn all_set(flags: &[bool]) -> (r: bool)
    ensures
        r == all_workers(flags@),
        r <==> forall|i: int| 0 <= i < flags@.len() ==> flags@[i],
{
    let n = flags.len();
    for i in 0..n
        invariant
            n == flags@.len(),
            forall|j: int| 0 <= j < i ==> #[trigger] flags@[j],
    {
        if !flags[i] {
            return false;
        }
    }
    true
}

/// The status of the liveness check: 200 while every inference worker is
/// alive, 503 once one has stopped.
pub fn liveness_status(alive: &[bool]) -> (s: u16)
    ensures
        s == (if all_workers(alive@) {
            200u16
        } else {
            503u16
        }),
        s == 200 || s == 503,
        s == 200 <==> forall|i: int| 0 <= i < alive@.len() ==> alive@[i],
{
    if all_set(alive) {
        200
    } else {
        503
    }
}

/// The status of the readiness check: 200 once every worker has loaded its
/// model, unless the service is shutting down; 503 otherwise.
pub fn readiness_status(loaded: &[bool], shutting_down: bool) -> (s: u16)
    ensures
        s == (if all_workers(loaded@) && !shutting_down {
            200u16
        } else {
            503u16
        }),
        s == 200 || s == 503,
        s == 200 <==> !shutting_down && forall|i: int| 0 <= i < loaded@.len() ==> loaded@[i],
{
    if !shutting_down && all_set(loaded) {
        200
    } else {
        503
    }
}

/// Number of workers to start: as many as asked for, but at least one.
pub fn worker_count(requested: usize) -> (r: usize)
    ensures
        r == (if requested < 1 {
            1
        } else {
            requested
        }),
{
    if requested < 1 {
        1
    } else {
        requested
    }
}

} // verus!
