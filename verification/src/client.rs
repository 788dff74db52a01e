//! The translator core shared by every call: quota precheck, admission
//! control through a fixed permit pool, and post-success bookkeeping.
//!
//! One `translate` call runs as: [`TranslatorCore::try_begin`] (quota gate,
//! permit, fresh [`TranslateFlow`]), then the flow is driven to its terminal
//! result, then [`TranslatorCore::finish`] (permit release, token accounting,
//! current-model marker). The driver performs the wire calls and the waiting;
//! every decision is made here.

use vstd::prelude::*;
use vstd::string::StrSliceExecFns;
use vstd::string::StringExecFns;

use crate::config::enabled_models;
use crate::config::lane_models;
use crate::config::TranslatorConfig;
use crate::errors::TranslationError;
use crate::flow::TranslateFlow;
use crate::models::LaneType;
use crate::models::Model;
use crate::models::TokenUsage;
use crate::models::TranslationRequest;
use crate::models::TranslationResult;
use crate::token_tracker::TokenTracker;

verus! {

/// What `try_begin` decided about a new call.
pub enum BeginOutcome {
    /// The call is admitted; drive this flow to its terminal result, then
    /// hand that result to `finish`.
    Start(TranslateFlow),
    /// Every permit is taken; try again once another call has finished.
    Busy,
    /// The call is rejected before any permit or wire call.
    Refused(TranslationError),
}

/// Shared state of the translation orchestrator.
pub struct TranslatorCore {
    /// Read-only configuration and model registry.
    pub config: TranslatorConfig,
    /// Daily token quota gate.
    pub tracker: TokenTracker,
    /// Permits taken from the admission pool of size
    /// `config.max_concurrent`; one per call between `try_begin` and
    /// `finish`.
    pub in_flight: usize,
    /// Identifier of the model that produced the most recent success.
    pub current_model: String,
}

impl TranslatorCore {
    /// At most `max_concurrent` calls ever hold a permit.
    pub open spec fn wf(&self) -> bool {
        self.in_flight <= self.config.max_concurrent
    }

    /// Token-cost heuristic of a request: a quarter of its length.
    pub open spec fn spec_estimate(text: Seq<char>) -> int {
        text.len() as int / 4
    }

    /// Build a core around a validated configuration. The daily budget
    /// starts unused as of day `today`; the current-model marker starts at
    /// the first configured model.
    pub fn new(config: TranslatorConfig, daily_limit: usize, today: u32) -> (r: Result<
        Self,
        TranslationError,
    >)
        ensures
            r is Ok <==> config.spec_valid(),
            r matches Ok(c) ==> {
                &&& c.wf()
                &&& c.config == config
                &&& c.tracker.spec_usage() == (TokenUsage {
                    daily_limit,
                    used_today: 0,
                    last_reset_day: today,
                })
                &&& c.in_flight == 0
                &&& c.current_model@ == if config.models@.len() > 0 {
                    config.models@[0].id@
                } else {
                    Seq::<char>::empty()
                }
            },
            !config.spec_valid() ==> (r matches Err(e) && e matches
                TranslationError::ConfigError { .. }),
    {
        match config.validate() {
            Err(e) => Err(e),
            Ok(()) => {
                let current_model = if config.models.len() > 0 {
                    config.models[0].id.clone()
                } else {
                    String::new()
                };
                Ok(TranslatorCore {
                    config,
                    tracker: TokenTracker::new(daily_limit, today),
                    in_flight: 0,
                    current_model,
                })
            },
        }
    }

    /// Admit a new call, or say why not.
    ///
    /// The quota is checked first, against the day-rolled budget: an
    /// estimate that does not fit is refused at once, before any permit is
    /// taken and before any wire call could be issued. Only then is a permit
    /// requested; with all permits taken the caller must wait. An admitted
    /// call holds one permit and receives a fresh flow over the configured
    /// lanes.
    pub fn try_begin(&mut self, request: &TranslationRequest, today: u32) -> (r: BeginOutcome)
        requires
            old(self).wf(),
        ensures
            final(self).wf(),
            final(self).config == old(self).config,
            final(self).current_model == old(self).current_model,
            ({
                let est = Self::spec_estimate(request.text@);
                let rolled = old(self).tracker.spec_usage().spec_rolled(today);
                &&& final(self).tracker.spec_usage() == rolled
                &&& (r == BeginOutcome::Refused(TranslationError::QuotaExceededError) <==>
                    rolled.spec_remaining() < est)
                &&& (rolled.spec_remaining() < est ==> final(self).in_flight == old(
                    self,
                ).in_flight)
                &&& (rolled.spec_remaining() >= est && old(self).in_flight >= old(
                    self,
                ).config.max_concurrent ==> r == BeginOutcome::Busy && final(self).in_flight
                    == old(self).in_flight)
                &&& (rolled.spec_remaining() >= est && old(self).in_flight < old(
                    self,
                ).config.max_concurrent ==> {
                    &&& final(self).in_flight == old(self).in_flight + 1
                    &&& r matches BeginOutcome::Start(flow)
                    &&& flow.wf()
                    &&& flow.history@.len() == 0
                    &&& flow.slow_models@ == lane_models(
                        old(self).config.models@,
                        LaneType::Slow,
                    )
                    &&& flow.fast_models@ == lane_models(
                        old(self).config.models@,
                        LaneType::Fast,
                    )
                    &&& flow.max_retries == old(self).config.max_retries
                    &&& flow.retry_delay_ms == old(self).config.retry_delay_ms
                })
            }),
    {
        let est: usize = request.text.as_str().unicode_len() / 4;
        if !self.tracker.can_use_on(est, today) {
            return BeginOutcome::Refused(TranslationError::QuotaExceededError);
        }
        if self.in_flight >= self.config.max_concurrent {
            return BeginOutcome::Busy;
        }
        self.in_flight = self.in_flight + 1;
        let slow = self.config.get_models_by_lane(LaneType::Slow);
        let fast = self.config.get_models_by_lane(LaneType::Fast);
        BeginOutcome::Start(
            TranslateFlow::new(
                slow,
                fast,
                self.config.max_retries,
                self.config.retry_delay_ms,
            ),
        )
    }

    /// Close out an admitted call with its terminal result.
    ///
    /// The permit is released whatever the result was. On success the
    /// consumed tokens are reported to the quota (a budget that no longer
    /// covers them is not an error of the translation — the result stands)
    /// and the winning model becomes the current-model marker. The result is
    /// handed back unchanged.
    pub fn finish(&mut self, outcome: Result<TranslationResult, TranslationError>, today: u32)
        -> (r: Result<TranslationResult, TranslationError>)
        requires
            old(self).wf(),
            old(self).in_flight >= 1,
        ensures
            final(self).wf(),
            final(self).config == old(self).config,
            final(self).in_flight == old(self).in_flight - 1,
            r == outcome,
            outcome matches Ok(res) ==> {
                &&& final(self).current_model == res.model_used
                &&& ({
                    let rolled = old(self).tracker.spec_usage().spec_rolled(today);
                    final(self).tracker.spec_usage() == if rolled.spec_remaining()
                        >= res.tokens_used {
                        TokenUsage {
                            used_today: (rolled.used_today + res.tokens_used) as usize,
                            ..rolled
                        }
                    } else {
                        rolled
                    }
                })
            },
            outcome matches Err(_) ==> final(self).tracker == old(self).tracker
                && final(self).current_model == old(self).current_model,
    {
        self.in_flight = self.in_flight - 1;
        match &outcome {
            Ok(res) => {
                let recorded = self.tracker.use_tokens_on(res.tokens_used, today);
                match recorded {
                    Ok(()) => (),
                    Err(_) => (),  // accounting shortfall is observed, never propagated
                }
                self.current_model = res.model_used.clone();
            },
            Err(_) => (),
        }
        outcome
    }

    /// Snapshot of the quota accounting.
    pub fn get_token_usage(&self) -> (r: TokenUsage)
        ensures
            r == self.tracker.spec_usage(),
    {
        self.tracker.get_stats()
    }

    /// Identifier of the model that produced the most recent success.
    pub fn get_current_model(&self) -> (r: String)
        ensures
            r == self.current_model,
    {
        self.current_model.clone()
    }

    /// All enabled models, in configured order.
    pub fn get_available_models(&self) -> (r: Vec<Model>)
        ensures
            r@ == enabled_models(self.config.models@),
    {
        self.config.get_enabled_models()
    }

    /// The first configured model with identifier `id`, if any.
    pub fn get_model(&self, id: &str) -> (r: Option<&Model>)
        ensures
            r is Some <==> exists|i: int|
                0 <= i < self.config.models@.len() && self.config.models@[i].id@ == id@,
            r matches Some(m) ==> exists|i: int|
                0 <= i < self.config.models@.len() && self.config.models@[i].id@ == id@ && *m
                    == self.config.models@[i],
    {
        self.config.find_model(id)
    }
}

/// Admission ceiling: between `try_begin` and `finish` every call holds one
/// permit, and the pool never hands out more than `max_concurrent` of them —
/// so at most `max_concurrent` wire calls are ever in flight.
pub proof fn lemma_admission_ceiling(c: &TranslatorCore)
    requires
        c.wf(),
    ensures
        c.in_flight <= c.config.max_concurrent,
{
}

} // verus!
