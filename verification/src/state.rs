use vstd::prelude::*;

use crate::clock::{seconds_between, whole_seconds_between, Timestamp};
use crate::types::{PublicKey, Tier};

verus! {

/// Seconds after the last heartbeat within which a node counts as healthy.
pub const HEARTBEAT_TIMEOUT_SECS: u64 = 120;

/// Runtime state of a node: its identity, when it started, and counters of
/// the requests, tokens and cache lookups it has served.
#[derive(Debug)]
pub struct NodeState {
    pub tier: Tier,
    pub public_key: PublicKey,
    pub started_at: Timestamp,
    pub last_heartbeat: Timestamp,
    pub requests_processed: u64,
    pub requests_failed: u64,
    pub tokens_generated: u64,
    pub cache_hits: u64,
    pub cache_misses: u64,
    pub active_requests: usize,
}

/// Uptime in seconds given the seconds elapsed since start, as the clock
/// reports them: 0 when the clock stands before the start.
pub fn uptime_from_elapsed(elapsed: Option<u64>) -> (r: u64)
    ensures
        r == match elapsed {
            Some(secs) => secs,
            None => 0,
        },
{
    match elapsed {
        Some(secs) => secs,
        None => 0,
    }
}

/// Whether a node is healthy given the age of its last heartbeat in seconds:
/// healthy exactly when the heartbeat is known and younger than the timeout.
pub fn heartbeat_is_fresh(age: Option<u64>) -> (r: bool)
    ensures
        r == (age matches Some(secs) && secs < HEARTBEAT_TIMEOUT_SECS),
{
    match age {
        Some(secs) => secs < HEARTBEAT_TIMEOUT_SECS,
        None => false,
    }
}

impl NodeState {
    /// The state with one more request in flight.
    pub open spec fn started(self) -> NodeState {
        NodeState { active_requests: (self.active_requests + 1) as usize, ..self }
    }

    /// The state with one request fewer in flight, never going below zero.
    pub open spec fn ended(self) -> NodeState {
        NodeState {
            active_requests: if self.active_requests == 0 {
                0
            } else {
                (self.active_requests - 1) as usize
            },
            ..self
        }
    }

    /// The state with one more processed request.
    pub open spec fn request_counted(self) -> NodeState {
        NodeState { requests_processed: (self.requests_processed + 1) as u64, ..self }
    }

    /// The state with one more failed request.
    pub open spec fn failure_counted(self) -> NodeState {
        NodeState { requests_failed: (self.requests_failed + 1) as u64, ..self }
    }

    /// The state with `count` more generated tokens.
    pub open spec fn tokens_counted(self, count: u64) -> NodeState {
        NodeState { tokens_generated: (self.tokens_generated + count) as u64, ..self }
    }

    /// The state with one more cache hit.
    pub open spec fn hit_counted(self) -> NodeState {
        NodeState { cache_hits: (self.cache_hits + 1) as u64, ..self }
    }

    /// The state with one more cache miss.
    pub open spec fn miss_counted(self) -> NodeState {
        NodeState { cache_misses: (self.cache_misses + 1) as u64, ..self }
    }

    /// The state after a request completed with `count` generated tokens:
    /// counted as processed, its tokens added, and no longer in flight (what
    /// `finish_request` does with `Some(count)`).
    pub open spec fn success_counted(self, count: u64) -> NodeState {
        self.request_counted().tokens_counted(count).ended()
    }

    /// Whether every counter is zero and nothing is in flight.
    pub open spec fn is_fresh(self) -> bool {
        &&& self.requests_processed == 0
        &&& self.requests_failed == 0
        &&& self.tokens_generated == 0
        &&& self.cache_hits == 0
        &&& self.cache_misses == 0
        &&& self.active_requests == 0
    }

    /// A fresh state for a node of the given tier and key, started at
    /// `started_at` and with its last heartbeat at `last_heartbeat`.
    pub fn new_at(
        tier: Tier,
        public_key: PublicKey,
        started_at: Timestamp,
        last_heartbeat: Timestamp,
    ) -> (s: Self)
        ensures
            s.tier == tier,
            s.public_key == public_key,
            s.started_at == started_at,
            s.last_heartbeat == last_heartbeat,
            s.is_fresh(),
    {
        NodeState {
            tier,
            public_key,
            started_at,
            last_heartbeat,
            requests_processed: 0,
            requests_failed: 0,
            tokens_generated: 0,
            cache_hits: 0,
            cache_misses: 0,
            active_requests: 0,
        }
    }

    /// A fresh state for a node of the given tier and key, started now: its
    /// start and its last heartbeat are two readings of the system clock (see
    /// `new_at`).
    pub fn new(tier: Tier, public_key: PublicKey) -> (s: Self)
        ensures
            s.tier == tier,
            s.public_key == public_key,
            s.is_fresh(),
    {
        let started_at = Timestamp::now();
        let last_heartbeat = Timestamp::now();
        NodeState::new_at(tier, public_key, started_at, last_heartbeat)
    }

    /// Whole seconds from the node's start to `now`, 0 when `now` lies before
    /// the start.
    pub fn uptime_at(&self, now: &Timestamp) -> (r: u64)
        ensures
            r == match whole_seconds_between(self.started_at, *now) {
                Some(secs) => secs,
                None => 0,
            },
    {
        uptime_from_elapsed(seconds_between(&self.started_at, now))
    }

    /// Seconds since the node started, 0 when the clock stands before the
    /// start: `uptime_at` the current reading of the system clock.
    pub fn uptime(&self) -> (r: u64) {
        self.uptime_at(&Timestamp::now())
    }

    /// Counts one processed request.
    pub fn increment_requests(&mut self)
        requires
            old(self).requests_processed < u64::MAX,
        ensures
            *final(self) == old(self).request_counted(),
    {
        self.requests_processed = self.requests_processed + 1;
    }

    /// Counts one failed request.
    pub fn increment_failures(&mut self)
        requires
            old(self).requests_failed < u64::MAX,
        ensures
            *final(self) == old(self).failure_counted(),
    {
        self.requests_failed = self.requests_failed + 1;
    }

    /// Adds `count` generated tokens.
    pub fn increment_tokens(&mut self, count: u64)
        requires
            old(self).tokens_generated + count <= u64::MAX,
        ensures
            *final(self) == old(self).tokens_counted(count),
    {
        self.tokens_generated = self.tokens_generated + count;
    }

    /// Counts one cache hit.
    pub fn record_cache_hit(&mut self)
        requires
            old(self).cache_hits < u64::MAX,
        ensures
            *final(self) == old(self).hit_counted(),
    {
        self.cache_hits = self.cache_hits + 1;
    }

    /// Counts one cache miss.
    pub fn record_cache_miss(&mut self)
        requires
            old(self).cache_misses < u64::MAX,
        ensures
            *final(self) == old(self).miss_counted(),
    {
        self.cache_misses = self.cache_misses + 1;
    }

    /// The cache hits and the cache lookups (hits and misses together): the
    /// hit rate is their quotient, and 0 when there was no lookup.
    pub fn cache_hit_ratio(&self) -> (r: (u64, u64))
        requires
            self.cache_hits + self.cache_misses <= u64::MAX,
        ensures
            r.0 == self.cache_hits,
            r.1 == self.cache_hits + self.cache_misses,
    {
        (self.cache_hits, self.cache_hits + self.cache_misses)
    }

    /// Marks one more request in flight.
    pub fn start_request(&mut self)
        requires
            old(self).active_requests < usize::MAX,
        ensures
            *final(self) == old(self).started(),
    {
        self.active_requests = self.active_requests + 1;
    }

    /// Marks one request fewer in flight; with none in flight, nothing changes.
    pub fn end_request(&mut self)
        ensures
            *final(self) == old(self).ended(),
    {
        self.active_requests = self.active_requests.saturating_sub(1);
    }

    /// Accounts for how a request ended. One that completed with
    /// `Some(tokens)` is counted as processed, its tokens are added, and it is
    /// no longer in flight. One that failed (`None`) is counted as failed and
    /// stays counted in flight.
    pub fn finish_request(&mut self, tokens_generated: Option<u64>)
        requires
            match tokens_generated {
                Some(count) => old(self).requests_processed < u64::MAX
                    && old(self).tokens_generated + count <= u64::MAX,
                None => old(self).requests_failed < u64::MAX,
            },
        ensures
            *final(self) == match tokens_generated {
                Some(count) => old(self).success_counted(count),
                None => old(self).failure_counted(),
            },
    {
        match tokens_generated {
            Some(count) => {
                self.increment_requests();
                self.increment_tokens(count);
                self.end_request();
            },
            None => self.increment_failures(),
        }
    }

    /// Whether, at `now`, the last heartbeat is known to lie less than the
    /// timeout in the past: `now` is not before it and fewer than
    /// `HEARTBEAT_TIMEOUT_SECS` whole seconds separate them.
    pub fn is_healthy_at(&self, now: &Timestamp) -> (r: bool)
        ensures
            r == (whole_seconds_between(self.last_heartbeat, *now) matches Some(secs) && secs
                < HEARTBEAT_TIMEOUT_SECS),
    {
        heartbeat_is_fresh(seconds_between(&self.last_heartbeat, now))
    }

    /// Whether the last heartbeat is younger than the timeout:
    /// `is_healthy_at` the current reading of the system clock.
    pub fn is_healthy(&self) -> (r: bool) {
        self.is_healthy_at(&Timestamp::now())
    }
}

/// Starting a request and then ending it leaves the state as it was.
pub proof fn lemma_start_then_end_restores(s: NodeState)
    requires
        s.active_requests < usize::MAX,
    ensures
        s.started().ended() == s,
{
}

/// Ending a request while none is in flight changes nothing.
pub proof fn lemma_end_when_idle_changes_nothing(s: NodeState)
    requires
        s.active_requests == 0,
    ensures
        s.ended() == s,
{
}

/// Generated tokens add up: counting `a` and then `b` tokens is counting
/// `a + b` tokens at once.
pub proof fn lemma_tokens_accumulate(s: NodeState, a: u64, b: u64)
    requires
        s.tokens_generated + a + b <= u64::MAX,
    ensures
        s.tokens_counted(a).tokens_counted(b) == s.tokens_counted((a + b) as u64),
{
}

/// A request that starts and then finishes with `count` tokens
/// (`finish_request(Some(count))`) leaves the in-flight count as it found
/// it: the only changes are one more processed request and `count` more
/// tokens.
pub proof fn lemma_successful_request(s: NodeState, count: u64)
    requires
        s.active_requests < usize::MAX,
        s.requests_processed < u64::MAX,
        s.tokens_generated + count <= u64::MAX,
    ensures
        s.started().success_counted(count) == s.request_counted().tokens_counted(count),
{
}

/// A request that starts and then fails is counted as failed and stays
/// counted in flight: `finish_request(None)` does not end the request.
pub proof fn lemma_failed_request_stays_in_flight(s: NodeState)
    requires
        s.active_requests < usize::MAX,
        s.requests_failed < u64::MAX,
    ensures
        s.started().failure_counted().active_requests == s.active_requests + 1,
        s.started().failure_counted().requests_failed == s.requests_failed + 1,
        s.started().failure_counted().requests_processed == s.requests_processed,
        s.started().failure_counted().tokens_generated == s.tokens_generated,
{
}

/// No counter of processed, failed or generated work ever goes down: each
/// operation on the state leaves them equal or larger.
pub proof fn lemma_work_counters_never_decrease(s: NodeState, count: u64)
    requires
        s.active_requests < usize::MAX,
        s.requests_processed < u64::MAX,
        s.requests_failed < u64::MAX,
        s.tokens_generated + count <= u64::MAX,
    ensures
        ({
            let after = seq![
                s.started(),
                s.ended(),
                s.request_counted(),
                s.failure_counted(),
                s.tokens_counted(count),
                s.hit_counted(),
                s.miss_counted(),
                s.success_counted(count),
            ];
            forall|i: int|
                0 <= i < after.len() ==> {
                    &&& #[trigger] after[i].requests_processed >= s.requests_processed
                    &&& after[i].requests_failed >= s.requests_failed
                    &&& after[i].tokens_generated >= s.tokens_generated
                }
        }),
{
}

/// One update that request handling makes to the shared state: a request
/// starts, or a request finishes with the given number of generated tokens.
pub enum RequestStep {
    Start,
    Finish(u64),
}

/// The state after the given updates, applied one at a time in order.
pub open spec fn apply_steps(s: NodeState, steps: Seq<RequestStep>) -> NodeState
    decreases steps.len(),
{
    if steps.len() == 0 {
        s
    } else {
        let before = apply_steps(s, steps.drop_last());
        match steps.last() {
            RequestStep::Start => before.started(),
            RequestStep::Finish(count) => before.success_counted(count),
        }
    }
}

/// How many of the updates start a request.
pub open spec fn starts_in(steps: Seq<RequestStep>) -> nat
    decreases steps.len(),
{
    if steps.len() == 0 {
        0
    } else {
        starts_in(steps.drop_last()) + if steps.last() is Start {
            1nat
        } else {
            0nat
        }
    }
}

/// How many of the updates finish a request.
pub open spec fn finishes_in(steps: Seq<RequestStep>) -> nat
    decreases steps.len(),
{
    if steps.len() == 0 {
        0
    } else {
        finishes_in(steps.drop_last()) + if steps.last() is Finish {
            1nat
        } else {
            0nat
        }
    }
}

/// The tokens generated by the requests that the updates finish.
pub open spec fn tokens_in(steps: Seq<RequestStep>) -> nat
    decreases steps.len(),
{
    if steps.len() == 0 {
        0
    } else {
        tokens_in(steps.drop_last()) + match steps.last() {
            RequestStep::Start => 0nat,
            RequestStep::Finish(count) => count as nat,
        }
    }
}

/// Whether every update that finishes a request has a request of its own to
/// finish: at no point have more requests finished than started.
pub open spec fn finishes_follow_starts(steps: Seq<RequestStep>) -> bool
    decreases steps.len(),
{
    steps.len() == 0 || (finishes_follow_starts(steps.drop_last()) && finishes_in(steps)
        <= starts_in(steps))
}

proof fn lemma_apply_steps_counts(s: NodeState, steps: Seq<RequestStep>)
    requires
        finishes_follow_starts(steps),
        s.active_requests + starts_in(steps) <= usize::MAX,
        s.requests_processed + finishes_in(steps) <= u64::MAX,
        s.tokens_generated + tokens_in(steps) <= u64::MAX,
    ensures
        apply_steps(s, steps).active_requests == s.active_requests + starts_in(steps)
            - finishes_in(steps),
        apply_steps(s, steps).requests_processed == s.requests_processed + finishes_in(steps),
        apply_steps(s, steps).tokens_generated == s.tokens_generated + tokens_in(steps),
        apply_steps(s, steps).requests_failed == s.requests_failed,
        apply_steps(s, steps).cache_hits == s.cache_hits,
        apply_steps(s, steps).cache_misses == s.cache_misses,
        apply_steps(s, steps).tier == s.tier,
        apply_steps(s, steps).public_key == s.public_key,
        apply_steps(s, steps).started_at == s.started_at,
        apply_steps(s, steps).last_heartbeat == s.last_heartbeat,
    decreases steps.len(),
{
    if steps.len() > 0 {
        lemma_apply_steps_counts(s, steps.drop_last());
    }
}

/// However the updates of several requests interleave, as long as each one
/// is applied whole and no request finishes before it started: once every
/// started request has finished, the processed count has grown by the number
/// of requests, the token count by the tokens they generated, and the
/// in-flight count is back where it was. No update is lost.
pub proof fn lemma_completed_requests(s: NodeState, steps: Seq<RequestStep>)
    requires
        finishes_follow_starts(steps),
        starts_in(steps) == finishes_in(steps),
        s.active_requests + starts_in(steps) <= usize::MAX,
        s.requests_processed + finishes_in(steps) <= u64::MAX,
        s.tokens_generated + tokens_in(steps) <= u64::MAX,
    ensures
        apply_steps(s, steps).requests_processed == s.requests_processed + finishes_in(steps),
        apply_steps(s, steps).tokens_generated == s.tokens_generated + tokens_in(steps),
        apply_steps(s, steps).active_requests == s.active_requests,
        apply_steps(s, steps).requests_failed == s.requests_failed,
{
    lemma_apply_steps_counts(s, steps);
}

} // verus!
