//! The backoff submitter's decisions: a flow update is simulated, committed if
//! the simulation passes, shrunk and retried if the ledger reports that the
//! position would become unhealthy, and given up otherwise.

use vstd::prelude::*;

verus! {

/// How the ledger reports the "position would become unhealthy" rejection.
#[derive(Clone, Debug, PartialEq, Eq)]
pub struct UnhealthySignature {
    /// The program's error code for the condition.
    pub error_code: u32,
    /// Text that the simulation logs carry for the condition.
    pub log_marker: Vec<u8>,
}

/// What a simulation of the candidate update reported.
#[derive(Clone, Debug, PartialEq, Eq)]
pub enum SimulationReport {
    Passed,
    Failed { error_code: Option<u32>, logs: Vec<Vec<u8>> },
}

/// A simulation report, classified.
#[derive(Clone, Copy, Debug, PartialEq, Eq, Structural)]
pub enum SimulationVerdict {
    Passed,
    Unhealthy,
    Rejected,
}

/// The candidate flows and the number of simulations already spent.
#[derive(Clone, Copy, Debug, PartialEq, Eq, Structural)]
pub struct BackoffState {
    pub base_flow: u64,
    pub quote_flow: u64,
    pub attempt: u32,
}

/// Why an update was given up.
#[derive(Clone, Copy, Debug, PartialEq, Eq, Structural)]
pub enum BackoffError {
    /// The simulation failed for a reason other than an unhealthy position.
    Rejected,
    /// A flow is already at the floor of 1 and cannot shrink further.
    FloorReached,
    /// The attempt budget is spent.
    AttemptsExhausted,
}

/// The next move of the submitter.
#[derive(Clone, Copy, Debug, PartialEq, Eq, Structural)]
pub enum BackoffStep {
    /// Commit the update with these flows.
    Commit { base_flow: u64, quote_flow: u64 },
    /// Simulate again with the shrunk candidate.
    Retry(BackoffState),
    /// Give up.
    Fail(BackoffError),
}

pub open spec fn occurs_at(hay: Seq<u8>, needle: Seq<u8>, i: int) -> bool {
    0 <= i && i + needle.len() <= hay.len() && hay.subrange(i, i + needle.len()) == needle
}

pub open spec fn occurs_in(hay: Seq<u8>, needle: Seq<u8>) -> bool {
    exists|i: int| occurs_at(hay, needle, i)
}

/// Whether `needle` occurs in `hay` as a contiguous run of bytes.
pub fn contains_bytes(hay: &Vec<u8>, needle: &Vec<u8>) -> (r: bool)
    ensures
        r == occurs_in(hay@, needle@),
{
    let n = needle.len();
    if n > hay.len() {
        proof {
            assert forall|i: int| !occurs_at(hay@, needle@, i) by {}
        }
        return false;
    }
    if n == 0 {
        proof {
            assert(hay@.subrange(0, 0) =~= needle@);
            assert(occurs_at(hay@, needle@, 0));
        }
        return true;
    }
    let last = hay.len() - n;
    let mut i: usize = 0;
    while i <= last
        invariant
            n == needle.len(),
            last == hay.len() - n,
            1 <= n <= hay.len(),
            i <= last + 1,
            forall|k: int| 0 <= k < i ==> !occurs_at(hay@, needle@, k),
        decreases last + 1 - i,
    {
        let mut j: usize = 0;
        let mut matched = true;
        while j < n
            invariant
                n == needle.len(),
                i <= last,
                last == hay.len() - n,
                j <= n,
                matched ==> forall|k: int| 0 <= k < j ==> hay@[i + k] == needle@[k],
                !matched ==> !occurs_at(hay@, needle@, i as int),
            decreases n - j,
        {
            if matched && hay[i + j] != needle[j] {
                proof {
                    if occurs_at(hay@, needle@, i as int) {
                        assert(hay@.subrange(i as int, i + n)[j as int] == hay@[i + j]);
                    }
                }
                matched = false;
            }
            j = j + 1;
        }
        if matched {
            proof {
                assert(hay@.subrange(i as int, i + n) =~= needle@);
                assert(occurs_at(hay@, needle@, i as int));
            }
            return true;
        }
        i = i + 1;
    }
    proof {
        assert forall|k: int| !occurs_at(hay@, needle@, k) by {
            if 0 <= k < i {
            } else if occurs_at(hay@, needle@, k) {
                assert(false);
            }
        }
    }
    false
}

pub open spec fn any_log_mentions(logs: Seq<Vec<u8>>, marker: Seq<u8>) -> bool {
    exists|l: int| 0 <= l < logs.len() && occurs_in(logs[l]@, marker)
}

/// Passed, unhealthy (by error code or by a log line carrying the marker), or rejected.
pub open spec fn verdict_of(report: SimulationReport, signature: UnhealthySignature) -> SimulationVerdict {
    match report {
        SimulationReport::Passed => SimulationVerdict::Passed,
        SimulationReport::Failed { error_code, logs } => {
            if error_code == Some(signature.error_code) || any_log_mentions(logs@, signature.log_marker@) {
                SimulationVerdict::Unhealthy
            } else {
                SimulationVerdict::Rejected
            }
        },
    }
}

/// Classifies a simulation report. Both the error code and the logs are
/// checked, since either may carry the unhealthy condition.
pub fn classify_simulation(report: &SimulationReport, signature: &UnhealthySignature) -> (r: SimulationVerdict)
    ensures
        r == verdict_of(*report, *signature),
{
    match report {
        SimulationReport::Passed => SimulationVerdict::Passed,
        SimulationReport::Failed { error_code, logs } => {
            let code_matches = match error_code {
                Some(c) => *c == signature.error_code,
                None => false,
            };
            if code_matches {
                return SimulationVerdict::Unhealthy;
            }
            let mut l: usize = 0;
            while l < logs.len()
                invariant
                    *report == (SimulationReport::Failed { error_code: *error_code, logs: *logs }),
                    *error_code != Some(signature.error_code),
                    l <= logs.len(),
                    forall|k: int| 0 <= k < l ==> !occurs_in(#[trigger] logs@[k]@, signature.log_marker@),
                decreases logs.len() - l,
            {
                if contains_bytes(&logs[l], &signature.log_marker) {
                    proof {
                        assert(occurs_in(logs@[l as int]@, signature.log_marker@));
                        assert(any_log_mentions(logs@, signature.log_marker@));
                    }
                    return SimulationVerdict::Unhealthy;
                }
                l = l + 1;
            }
            SimulationVerdict::Rejected
        },
    }
}

/// One shrink: about 1% less, floored, always strictly less and never below 1.
pub open spec fn shrunk(x: u64) -> u64 {
    if x <= 1 {
        1
    } else {
        let s = x * 99 / 100;
        if s < 1 { 1 } else if s >= x { (x - 1) as u64 } else { s as u64 }
    }
}

/// Shrinks one candidate flow.
pub fn shrink_flow(x: u64) -> (r: u64)
    ensures
        r == shrunk(x),
{
    if x <= 1 {
        return 1;
    }
    let s = (x as u128) * 99 / 100;
    if s < 1 {
        1
    } else if s >= x as u128 {
        x - 1
    } else {
        s as u64
    }
}

/// The first candidate: the requested flows, each floored at 1.
pub open spec fn initial_state(base_flow: u64, quote_flow: u64) -> BackoffState {
    BackoffState {
        base_flow: if base_flow < 1 { 1 } else { base_flow },
        quote_flow: if quote_flow < 1 { 1 } else { quote_flow },
        attempt: 0,
    }
}

/// Starts a submission of the requested flows.
pub fn start_backoff(base_flow: u64, quote_flow: u64) -> (r: BackoffState)
    ensures
        r == initial_state(base_flow, quote_flow),
{
    BackoffState {
        base_flow: if base_flow < 1 { 1 } else { base_flow },
        quote_flow: if quote_flow < 1 { 1 } else { quote_flow },
        attempt: 0,
    }
}

/// The move after the simulation of `state`'s candidate, with at most
/// `max_attempts` simulations in all.
pub open spec fn next_step(state: BackoffState, verdict: SimulationVerdict, max_attempts: u32) -> BackoffStep {
    match verdict {
        SimulationVerdict::Passed => BackoffStep::Commit { base_flow: state.base_flow, quote_flow: state.quote_flow },
        SimulationVerdict::Rejected => BackoffStep::Fail(BackoffError::Rejected),
        SimulationVerdict::Unhealthy => {
            let b = shrunk(state.base_flow);
            let q = shrunk(state.quote_flow);
            if b == state.base_flow || q == state.quote_flow {
                BackoffStep::Fail(BackoffError::FloorReached)
            } else if state.attempt + 1 >= max_attempts {
                BackoffStep::Fail(BackoffError::AttemptsExhausted)
            } else {
                BackoffStep::Retry(BackoffState { base_flow: b, quote_flow: q, attempt: (state.attempt + 1) as u32 })
            }
        },
    }
}

/// Decides the submitter's next move.
pub fn backoff_step(state: &BackoffState, verdict: SimulationVerdict, max_attempts: u32) -> (r: BackoffStep)
    ensures
        r == next_step(*state, verdict, max_attempts),
{
    match verdict {
        SimulationVerdict::Passed => BackoffStep::Commit { base_flow: state.base_flow, quote_flow: state.quote_flow },
        SimulationVerdict::Rejected => BackoffStep::Fail(BackoffError::Rejected),
        SimulationVerdict::Unhealthy => {
            let b = shrink_flow(state.base_flow);
            let q = shrink_flow(state.quote_flow);
            if b == state.base_flow || q == state.quote_flow {
                BackoffStep::Fail(BackoffError::FloorReached)
            } else if state.attempt as u64 + 1 >= max_attempts as u64 {
                BackoffStep::Fail(BackoffError::AttemptsExhausted)
            } else {
                BackoffStep::Retry(BackoffState { base_flow: b, quote_flow: q, attempt: state.attempt + 1 })
            }
        },
    }
}

/// A shrink leaves 1 at 1 and takes any larger flow strictly down, never below 1.
pub proof fn lemma_shrink_decreases(x: u64)
    ensures
        x <= 1 ==> shrunk(x) == 1,
        x > 1 ==> 1 <= shrunk(x) < x,
{
}

/// The step reached after `n` simulations that all report an unhealthy position.
pub open spec fn after_unhealthy(state: BackoffState, max_attempts: u32, n: nat) -> BackoffStep
    decreases n,
{
    if n == 0 {
        BackoffStep::Retry(state)
    } else {
        match after_unhealthy(state, max_attempts, (n - 1) as nat) {
            BackoffStep::Retry(s) => next_step(s, SimulationVerdict::Unhealthy, max_attempts),
            other => other,
        }
    }
}

/// Against a ledger that always reports an unhealthy position, every retry
/// shrinks both flows strictly, and the submitter gives up, either at the
/// floor or with the budget spent, within the attempt budget.
pub proof fn lemma_unhealthy_backoff_terminates(state: BackoffState, max_attempts: u32, n: nat)
    requires
        state.base_flow >= 1,
        state.quote_flow >= 1,
        state.attempt < max_attempts,
        n <= max_attempts - state.attempt,
    ensures
        match after_unhealthy(state, max_attempts, n) {
            BackoffStep::Retry(s) => {
                &&& s.attempt == state.attempt + n
                &&& s.attempt < max_attempts
                &&& n > 0 ==> s.base_flow < state.base_flow && s.quote_flow < state.quote_flow
                &&& s.base_flow <= state.base_flow - n
                &&& s.quote_flow <= state.quote_flow - n
                &&& s.base_flow >= 1
                &&& s.quote_flow >= 1
            },
            BackoffStep::Fail(e) => e == BackoffError::FloorReached || e == BackoffError::AttemptsExhausted,
            BackoffStep::Commit { .. } => false,
        },
        n == max_attempts - state.attempt ==> after_unhealthy(state, max_attempts, n) is Fail,
    decreases n,
{
    if n > 0 {
        lemma_unhealthy_backoff_terminates(state, max_attempts, (n - 1) as nat);
        match after_unhealthy(state, max_attempts, (n - 1) as nat) {
            BackoffStep::Retry(s) => {
                lemma_shrink_decreases(s.base_flow);
                lemma_shrink_decreases(s.quote_flow);
            },
            _ => {},
        }
    }
}

} // verus!
