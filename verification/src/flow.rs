//! The per-call orchestration state machine: slow-lane-first model routing,
//! bounded retry with exponential backoff, and lane fallback.
//!
//! One `translate` call is one run of a [`TranslateFlow`]. The driver asks
//! [`TranslateFlow::next_call`] which model to call and how long to back off,
//! performs the wire call, and hands the result to
//! [`TranslateFlow::on_response`]; the machine decides whether to retry the
//! model, move to the next model, fall back to the fast lane, or finish.
//! A ghost history of every call issued carries the ordering and retry-bound
//! guarantees.

use vstd::prelude::*;
use vstd::string::StringExecFns;

use crate::errors::spec_should_retry;
use crate::errors::should_retry;
use crate::errors::TranslationError;
use crate::models::LaneType;
use crate::models::Model;
use crate::models::TranslationResult;

verus! {

/// Ghost record of one issued wire call: which lane, which model slot of
/// that lane, and which attempt at that slot.
pub struct CallKey {
    /// Lane of the call.
    pub lane: LaneType,
    /// Position of the model within its lane's candidate list.
    pub idx: int,
    /// Zero-based attempt number at that model.
    pub attempt: int,
}

/// Rank of a lane in attempt order: the slow lane comes first.
pub open spec fn lane_rank(lane: LaneType) -> int {
    match lane {
        LaneType::Slow => 0,
        LaneType::Fast => 1,
    }
}

/// Strict ordering of call records: by lane, then model slot, then attempt.
pub open spec fn key_lt(a: CallKey, b: CallKey) -> bool {
    ||| lane_rank(a.lane) < lane_rank(b.lane)
    ||| (a.lane == b.lane && a.idx < b.idx)
    ||| (a.lane == b.lane && a.idx == b.idx && a.attempt < b.attempt)
}

/// Slot `(l2, i2)` comes strictly after slot `(l1, i1)` in attempt order.
pub open spec fn slot_lt(l1: LaneType, i1: int, l2: LaneType, i2: int) -> bool {
    ||| lane_rank(l1) < lane_rank(l2)
    ||| (l1 == l2 && i1 < i2)
}

/// How many calls of `h` went to model slot `idx` of `lane`.
pub open spec fn calls_to(h: Seq<CallKey>, lane: LaneType, idx: int) -> nat {
    h.filter(|k: CallKey| k.lane == lane && k.idx == idx).len()
}

proof fn lemma_calls_to_empty(lane: LaneType, idx: int)
    ensures
        calls_to(Seq::<CallKey>::empty(), lane, idx) == 0,
{
    reveal(Seq::filter);
}

proof fn lemma_calls_to_push(h: Seq<CallKey>, k: CallKey, lane: LaneType, idx: int)
    ensures
        calls_to(h.push(k), lane, idx) == calls_to(h, lane, idx) + if k.lane == lane && k.idx
            == idx {
            1int
        } else {
            0int
        },
{
    broadcast use Seq::lemma_filter_push;

}

/// Message of the error reported when a lane has no enabled model.
pub open spec fn no_models_msg(lane: LaneType) -> Seq<char> {
    match lane {
        LaneType::Slow => "No models available for lane: slow"@,
        LaneType::Fast => "No models available for lane: fast"@,
    }
}

/// Message of the error reported when every model of a lane failed.
pub open spec fn lane_failed_msg(lane: LaneType) -> Seq<char> {
    match lane {
        LaneType::Slow => "All models in lane slow failed"@,
        LaneType::Fast => "All models in lane fast failed"@,
    }
}

/// `e` is the configuration error for an empty `lane`.
pub open spec fn is_no_models_err(e: TranslationError, lane: LaneType) -> bool {
    e matches TranslationError::ConfigError { message } && message@ == no_models_msg(lane)
}

/// `e` is the configuration error for an exhausted `lane`.
pub open spec fn is_lane_failed_err(e: TranslationError, lane: LaneType) -> bool {
    e matches TranslationError::ConfigError { message } && message@ == lane_failed_msg(lane)
}

/// Backoff before attempt `attempt` at a model: nothing before the first
/// attempt, then `base * 2^(attempt - 1)`, saturating at `u64::MAX`.
pub open spec fn spec_backoff(base: u64, attempt: u32) -> int {
    if attempt == 0 {
        0
    } else {
        let d = base * vstd::arithmetic::power2::pow2((attempt - 1) as nat);
        if d > u64::MAX {
            u64::MAX as int
        } else {
            d
        }
    }
}

/// Exponential backoff delay in milliseconds, saturating instead of
/// overflowing.
pub fn backoff_delay(base: u64, attempt: u32) -> (r: u64)
    ensures
        r == spec_backoff(base, attempt),
{
    if attempt == 0 {
        return 0;
    }
    if base == 0 {
        proof {
            vstd::arithmetic::power2::lemma_pow2_pos((attempt - 1) as nat);
        }
        return 0;
    }
    let e: u32 = attempt - 1;
    let mut d: u64 = base;
    let mut k: u32 = 0;
    proof {
        vstd::arithmetic::power2::lemma2_to64();
    }
    while k < e
        invariant
            base >= 1,
            attempt >= 1,
            e == attempt - 1,
            k <= e,
            d == base * vstd::arithmetic::power2::pow2(k as nat),
            d >= 1,
        decreases e - k,
    {
        let ghost p = vstd::arithmetic::power2::pow2(k as nat);
        proof {
            vstd::arithmetic::power2::lemma_pow2_unfold((k + 1) as nat);
        }
        match d.checked_mul(2) {
            Some(x) => {
                assert(base * vstd::arithmetic::power2::pow2((k + 1) as nat) == d * 2)
                    by (nonlinear_arith)
                    requires
                        d == base * p,
                        vstd::arithmetic::power2::pow2((k + 1) as nat) == 2 * p,
                ;
                d = x;
            },
            None => {
                // base * 2^e >= 2 * d > u64::MAX: the true delay overflows
                proof {
                    let pe = vstd::arithmetic::power2::pow2((e - k) as nat);
                    vstd::arithmetic::power2::lemma_pow2_adds(k as nat, (e - k) as nat);
                    vstd::arithmetic::power2::lemma_pow2_strictly_increases(0, (e - k) as nat);
                    vstd::arithmetic::power2::lemma2_to64();
                    assert(base * vstd::arithmetic::power2::pow2(e as nat) >= d * 2)
                        by (nonlinear_arith)
                        requires
                            d == base * p,
                            d >= 1,
                            vstd::arithmetic::power2::pow2(e as nat) == p * pe,
                            pe >= 2,
                    ;
                    assert(base * vstd::arithmetic::power2::pow2((attempt - 1) as nat)
                        > u64::MAX);
                }
                return u64::MAX;
            },
        }
        k = k + 1;
    }
    d
}

/// Every transition of the machine preserves `wf`: the new history is the
/// old one with the answered call appended, and the new position, when the
/// run goes on, is a legal successor of the old one.
proof fn lemma_step_wf(o: TranslateFlow, f: TranslateFlow)
    requires
        o.wf(),
        o.is_active(),
        f.history@ == o.history@.push(o.cur_key()),
        f.max_retries == o.max_retries,
        f.slow_models == o.slow_models,
        f.fast_models == o.fast_models,
        f.attempt <= f.max_retries,
        f.is_active() ==> f.is_successor_of(o),
        f.is_active() && f.lane != o.lane ==> o.model_idx + 1 >= o.slow_models@.len(),
        f.is_active() ==> match f.lane {
            LaneType::Slow => f.model_idx < f.slow_models@.len() && f.slow_error is None,
            LaneType::Fast => f.model_idx < f.fast_models@.len() && (
            f.slow_error matches Some(_)),
        },
    ensures
        f.wf(),
{
    let h = o.history@;
    let k = o.cur_key();
    let h2 = f.history@;
    assert forall|i: int, j: int| 0 <= i < j < h2.len() implies key_lt(
        #[trigger] h2[i],
        #[trigger] h2[j],
    ) by {
        if j < h.len() {
            assert(key_lt(h[i], h[j]));
        } else {
            assert(h2[j] == k);
            assert(key_lt(h[i], k));
        }
    }
    assert forall|i: int| 0 <= i < h2.len() implies 0 <= (#[trigger] h2[i]).attempt
        <= f.max_retries by {
        if i < h.len() {
            assert(0 <= h[i].attempt <= o.max_retries);
        }
    }
    assert(calls_to(h, o.lane, o.model_idx as int) == o.attempt);
    assert forall|l: LaneType, x: int| #[trigger] calls_to(h2, l, x) <= f.max_retries + 1 by {
        lemma_calls_to_push(h, k, l, x);
        if l == o.lane && x == o.model_idx as int {
            assert(calls_to(h2, l, x) == o.attempt + 1);
        } else {
            assert(calls_to(h2, l, x) == calls_to(h, l, x));
        }
    }
    if f.is_active() {
        let nk = f.cur_key();
        assert(key_lt(k, nk));
        assert forall|i: int| 0 <= i < h2.len() implies key_lt(#[trigger] h2[i], nk) by {
            if i < h.len() {
                assert(key_lt(h[i], k));
            } else {
                assert(h2[i] == k);
            }
        }
        lemma_calls_to_push(h, k, f.lane, f.model_idx as int);
        if f.lane == o.lane && f.model_idx == o.model_idx {
            assert(calls_to(h2, f.lane, f.model_idx as int) == o.attempt + 1);
            assert(f.attempt == o.attempt + 1);
        } else {
            assert(slot_lt(o.lane, o.model_idx as int, f.lane, f.model_idx as int));
            assert(calls_to(h, f.lane, f.model_idx as int) == 0);
            assert(calls_to(h2, f.lane, f.model_idx as int) == 0);
            assert(f.attempt == 0);
        }
        assert forall|l: LaneType, x: int|
            slot_lt(f.lane, f.model_idx as int, l, x) implies #[trigger] calls_to(h2, l, x)
            == 0 by {
            lemma_calls_to_push(h, k, l, x);
            assert(slot_lt(o.lane, o.model_idx as int, l, x));
            assert(calls_to(h, l, x) == 0);
        }
        assert forall|l: LaneType, x: int|
            0 <= x < f.lane_len(l) && slot_lt(l, x, f.lane, f.model_idx as int)
                implies #[trigger] calls_to(h2, l, x) >= 1 by {
            lemma_calls_to_push(h, k, l, x);
            if l == o.lane && x == o.model_idx as int {
                assert(calls_to(h2, l, x) == o.attempt + 1);
            } else {
                assert(slot_lt(l, x, o.lane, o.model_idx as int));
                assert(calls_to(h, l, x) >= 1);
            }
        }
    }
}

/// The per-call routing machine. See the module documentation; `wf` is the
/// invariant every transition preserves.
pub struct TranslateFlow {
    /// Enabled slow-lane models, in attempt order.
    pub slow_models: Vec<Model>,
    /// Enabled fast-lane models, in attempt order.
    pub fast_models: Vec<Model>,
    /// Retries allowed per model beyond the first attempt.
    pub max_retries: u32,
    /// Base backoff delay in milliseconds.
    pub retry_delay_ms: u64,
    /// Lane currently being attempted.
    pub lane: LaneType,
    /// Position within the current lane's candidate list.
    pub model_idx: usize,
    /// Zero-based attempt number at the current model.
    pub attempt: u32,
    /// Once the slow lane has failed, its definitive error; it is what the
    /// caller sees if the fast lane fails too.
    pub slow_error: Option<TranslationError>,
    /// Terminal result, once the machine has finished.
    pub outcome: Option<Result<TranslationResult, TranslationError>>,
    /// Ghost record of every call issued so far, in order.
    pub history: Ghost<Seq<CallKey>>,
}

impl TranslateFlow {
    /// The candidate list of the current lane.
    pub open spec fn cur_models(&self) -> Seq<Model> {
        match self.lane {
            LaneType::Slow => self.slow_models@,
            LaneType::Fast => self.fast_models@,
        }
    }

    /// Number of candidate models of lane `l`.
    pub open spec fn lane_len(&self, l: LaneType) -> int {
        match l {
            LaneType::Slow => self.slow_models@.len() as int,
            LaneType::Fast => self.fast_models@.len() as int,
        }
    }

    /// Ghost record of the call the machine is waiting on.
    pub open spec fn cur_key(&self) -> CallKey {
        CallKey { lane: self.lane, idx: self.model_idx as int, attempt: self.attempt as int }
    }

    /// The machine still has a call in flight or to issue.
    pub open spec fn is_active(&self) -> bool {
        self.outcome is None
    }

    /// Invariant preserved by every transition: the current position is in
    /// range, attempts stay within the retry budget, the history is strictly
    /// ordered and everything in it precedes the current call, no model slot
    /// is ever called more than `max_retries + 1` times, the current slot
    /// has been called exactly `attempt` times, slots after the current one
    /// have never been called, and every candidate slot before the current
    /// one has been called at least once.
    pub open spec fn wf(&self) -> bool {
        &&& self.attempt <= self.max_retries
        &&& (self.is_active() ==> match self.lane {
            LaneType::Slow => self.model_idx < self.slow_models@.len()
                && self.slow_error is None,
            LaneType::Fast => self.model_idx < self.fast_models@.len() && (
            self.slow_error matches Some(_)),
        })
        &&& forall|i: int, j: int|
            0 <= i < j < self.history@.len() ==> key_lt(
                #[trigger] self.history@[i],
                #[trigger] self.history@[j],
            )
        &&& forall|i: int|
            0 <= i < self.history@.len() ==> 0 <= (#[trigger] self.history@[i]).attempt
                <= self.max_retries
        &&& (self.is_active() ==> forall|i: int|
            0 <= i < self.history@.len() ==> key_lt(#[trigger] self.history@[i], self.cur_key()))
        &&& (self.is_active() ==> calls_to(self.history@, self.lane, self.model_idx as int)
            == self.attempt)
        &&& forall|l: LaneType, x: int| #[trigger]
            calls_to(self.history@, l, x) <= self.max_retries + 1
        &&& (self.is_active() ==> forall|l: LaneType, x: int|
            slot_lt(self.lane, self.model_idx as int, l, x) ==> #[trigger] calls_to(
                self.history@,
                l,
                x,
            ) == 0)
        &&& (self.is_active() ==> forall|l: LaneType, x: int|
            0 <= x < self.lane_len(l) && slot_lt(l, x, self.lane, self.model_idx as int)
                ==> #[trigger] calls_to(self.history@, l, x) >= 1)
    }

    /// Start a run over the given lane candidates. An empty slow lane is
    /// already a failed slow lane; if the fast lane is empty too, the run is
    /// finished before any call is issued.
    pub fn new(
        slow_models: Vec<Model>,
        fast_models: Vec<Model>,
        max_retries: u32,
        retry_delay_ms: u64,
    ) -> (f: Self)
        ensures
            f.wf(),
            f.slow_models == slow_models,
            f.fast_models == fast_models,
            f.max_retries == max_retries,
            f.retry_delay_ms == retry_delay_ms,
            f.history@ == Seq::<CallKey>::empty(),
            slow_models@.len() > 0 ==> {
                &&& f.lane == LaneType::Slow
                &&& f.model_idx == 0
                &&& f.attempt == 0
                &&& f.is_active()
            },
            slow_models@.len() == 0 && fast_models@.len() > 0 ==> {
                &&& f.lane == LaneType::Fast
                &&& f.model_idx == 0
                &&& f.attempt == 0
                &&& f.is_active()
                &&& (f.slow_error matches Some(e) && is_no_models_err(e, LaneType::Slow))
            },
            slow_models@.len() == 0 && fast_models@.len() == 0 ==> (f.outcome matches Some(r)
                && r matches Err(e) && is_no_models_err(e, LaneType::Slow)),
    {
        proof {
            assert forall|l: LaneType, x: int| #[trigger]
                calls_to(Seq::<CallKey>::empty(), l, x) == 0 by {
                lemma_calls_to_empty(l, x);
            }
        }
        if slow_models.len() > 0 {
            TranslateFlow {
                slow_models,
                fast_models,
                max_retries,
                retry_delay_ms,
                lane: LaneType::Slow,
                model_idx: 0,
                attempt: 0,
                slow_error: None,
                outcome: None,
                history: Ghost(Seq::empty()),
            }
        } else {
            proof {
                reveal_strlit("No models available for lane: slow");
            }
            let no_slow = TranslationError::ConfigError {
                message: String::from_str("No models available for lane: slow"),
            };
            if fast_models.len() > 0 {
                TranslateFlow {
                    slow_models,
                    fast_models,
                    max_retries,
                    retry_delay_ms,
                    lane: LaneType::Fast,
                    model_idx: 0,
                    attempt: 0,
                    slow_error: Some(no_slow),
                    outcome: None,
                    history: Ghost(Seq::empty()),
                }
            } else {
                TranslateFlow {
                    slow_models,
                    fast_models,
                    max_retries,
                    retry_delay_ms,
                    lane: LaneType::Slow,
                    model_idx: 0,
                    attempt: 0,
                    slow_error: None,
                    outcome: Some(Err(no_slow)),
                    history: Ghost(Seq::empty()),
                }
            }
        }
    }

    /// Whether the run has reached a terminal result.
    pub fn is_finished(&self) -> (r: bool)
        ensures
            r == !self.is_active(),
    {
        self.outcome.is_some()
    }

    /// Surrender the terminal result.
    pub fn into_outcome(self) -> (r: Result<TranslationResult, TranslationError>)
        requires
            !self.is_active(),
        ensures
            Some(r) == self.outcome,
    {
        self.outcome.unwrap()
    }

    /// One of the three legal moves of the position `(lane, model_idx,
    /// attempt)`: another attempt at the same model, the next model of the
    /// lane, or the first model of the fast lane after the slow lane.
    pub open spec fn is_successor_of(self, o: TranslateFlow) -> bool {
        ||| (self.lane == o.lane && self.model_idx == o.model_idx && self.attempt == o.attempt
            + 1)
        ||| (self.lane == o.lane && self.model_idx == o.model_idx + 1 && self.attempt == 0)
        ||| (o.lane == LaneType::Slow && self.lane == LaneType::Fast && self.model_idx == 0
            && self.attempt == 0)
    }

    /// How the machine leaves a model it has given up on: the next model of
    /// the lane if there is one; otherwise the lane has failed — the slow
    /// lane records its error and falls back to the fast lane, while a failed
    /// fast lane ends the run with the slow lane's error.
    pub open spec fn spec_advanced(o: TranslateFlow, f: TranslateFlow) -> bool {
        if o.model_idx + 1 < o.cur_models().len() {
            &&& f.is_active()
            &&& f.lane == o.lane
            &&& f.model_idx == o.model_idx + 1
            &&& f.attempt == 0
            &&& f.slow_error == o.slow_error
        } else if o.lane == LaneType::Slow {
            if o.fast_models@.len() > 0 {
                &&& f.is_active()
                &&& f.lane == LaneType::Fast
                &&& f.model_idx == 0
                &&& f.attempt == 0
                &&& (f.slow_error matches Some(se) && is_lane_failed_err(se, LaneType::Slow))
            } else {
                f.outcome matches Some(r) && r matches Err(se) && is_lane_failed_err(
                    se,
                    LaneType::Slow,
                )
            }
        } else {
            f.outcome == Some(Err::<TranslationResult, TranslationError>(
                o.slow_error.unwrap(),
            ))
        }
    }

    /// Process the result of the call issued at the current position.
    ///
    /// A success ends the run with that result. A failure is retried at the
    /// same model while the error class allows it and the retry budget is
    /// not exhausted; otherwise the machine gives the model up and advances
    /// as [`TranslateFlow::spec_advanced`] describes.
    pub fn on_response(&mut self, response: Result<TranslationResult, TranslationError>)
        requires
            old(self).wf(),
            old(self).is_active(),
        ensures
            final(self).wf(),
            final(self).slow_models == old(self).slow_models,
            final(self).fast_models == old(self).fast_models,
            final(self).max_retries == old(self).max_retries,
            final(self).retry_delay_ms == old(self).retry_delay_ms,
            final(self).history@ == old(self).history@.push(old(self).cur_key()),
            response matches Ok(_) ==> final(self).outcome == Some(response),
            response matches Err(e) ==> ({
                if spec_should_retry(e) && old(self).attempt < old(self).max_retries {
                    &&& final(self).is_active()
                    &&& final(self).lane == old(self).lane
                    &&& final(self).model_idx == old(self).model_idx
                    &&& final(self).attempt == old(self).attempt + 1
                    &&& final(self).slow_error == old(self).slow_error
                } else {
                    Self::spec_advanced(*old(self), *final(self))
                }
            }),
    {
        let ghost o = *self;
        let ghost k = self.cur_key();
        proof {
            self.history@ = self.history@.push(k);
        }
        match response {
            Ok(res) => {
                self.outcome = Some(Ok(res));
                proof {
                    lemma_step_wf(o, *self);
                }
            },
            Err(e) => {
                if should_retry(&e) && self.attempt < self.max_retries {
                    self.attempt = self.attempt + 1;
                    proof {
                        lemma_step_wf(o, *self);
                    }
                } else {
                    let lane_len = match self.lane {
                        LaneType::Slow => self.slow_models.len(),
                        LaneType::Fast => self.fast_models.len(),
                    };
                    if self.model_idx + 1 < lane_len {
                        self.model_idx = self.model_idx + 1;
                        self.attempt = 0;
                        proof {
                            lemma_step_wf(o, *self);
                        }
                    } else {
                        match self.lane {
                            LaneType::Slow => {
                                let failed = TranslationError::ConfigError {
                                    message: String::from_str("All models in lane slow failed"),
                                };
                                if self.fast_models.len() > 0 {
                                    self.lane = LaneType::Fast;
                                    self.model_idx = 0;
                                    self.attempt = 0;
                                    self.slow_error = Some(failed);
                                    proof {
                                        lemma_step_wf(o, *self);
                                    }
                                } else {
                                    self.outcome = Some(Err(failed));
                                    proof {
                                        lemma_step_wf(o, *self);
                                    }
                                }
                            },
                            LaneType::Fast => {
                                let se = self.slow_error.take();
                                self.outcome = Some(Err(se.unwrap()));
                                proof {
                                    lemma_step_wf(o, *self);
                                }
                            },
                        }
                    }
                }
            },
        }
    }

    /// The call to issue now: the identifier of the model to address and the
    /// backoff delay to wait beforehand.
    pub fn next_call(&self) -> (r: (String, u64))
        requires
            self.wf(),
            self.is_active(),
        ensures
            r.0@ == self.cur_models()[self.model_idx as int].id@,
            r.1 == spec_backoff(self.retry_delay_ms, self.attempt),
    {
        let model_id = match self.lane {
            LaneType::Slow => self.slow_models[self.model_idx].id.clone(),
            LaneType::Fast => self.fast_models[self.model_idx].id.clone(),
        };
        let delay = backoff_delay(self.retry_delay_ms, self.attempt);
        (model_id, delay)
    }
}

/// Lane fallback ordering: the history of issued calls never returns to the
/// slow lane once the fast lane has been tried — every slow-lane call
/// precedes every fast-lane call.
pub proof fn lemma_lane_fallback_order(f: &TranslateFlow, i: int, j: int)
    requires
        f.wf(),
        0 <= i < j < f.history@.len(),
        f.history@[j].lane == LaneType::Slow,
    ensures
        f.history@[i].lane == LaneType::Slow,
{
    assert(key_lt(f.history@[i], f.history@[j]));
}

/// Lane fallback, the entry half: a run standing in the fast lane has
/// already attempted every slow-lane model at least once — the fast lane is
/// entered only after the slow lane is exhausted, so every slow-lane model
/// receives a call before any fast-lane call is issued.
pub proof fn lemma_slow_lane_exhausted_first(f: &TranslateFlow, x: int)
    requires
        f.wf(),
        f.is_active(),
        f.lane == LaneType::Fast,
        0 <= x < f.slow_models@.len(),
    ensures
        calls_to(f.history@, LaneType::Slow, x) >= 1,
{
}

/// Retry bound: no model slot is ever called more than `max_retries + 1`
/// times over a whole run, whatever the responses were.
pub proof fn lemma_retry_bound(f: &TranslateFlow, lane: LaneType, idx: int)
    requires
        f.wf(),
    ensures
        calls_to(f.history@, lane, idx) <= f.max_retries + 1,
{
}

} // verus!
