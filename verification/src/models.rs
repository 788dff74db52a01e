//! Core value types: lanes, models, requests, results, and token usage.

use vstd::prelude::*;

verus! {

/// Tier of translation models. The slow lane is the low-cost default tried
/// first; the fast lane is the higher-capacity fallback.
#[derive(Debug, Clone, Copy, PartialEq, Eq, Structural)]
pub enum LaneType {
    /// Low-cost tier, always attempted first.
    Slow,
    /// Higher-capacity tier, attempted only after the slow lane fails.
    Fast,
}

/// A translation model entry of the registry. Identity is `id`; entries are
/// immutable once loaded.
#[derive(Debug)]
pub struct Model {
    /// Unique model identifier used on the wire.
    pub id: String,
    /// Lane this model belongs to.
    pub lane: LaneType,
    /// Requests per minute the upstream allows for this model.
    pub rpm: u32,
    /// Upstream concurrency ceiling for this model.
    pub max_concurrent: usize,
    /// Disabled models are skipped by every lookup.
    pub enabled: bool,
}

impl Clone for Model {
    fn clone(&self) -> (r: Self)
        ensures
            r == *self,
    {
        Model {
            id: self.id.clone(),
            lane: self.lane,
            rpm: self.rpm,
            max_concurrent: self.max_concurrent,
            enabled: self.enabled,
        }
    }
}

impl Model {
    /// A model serves a lane when it belongs to it and is enabled.
    pub open spec fn spec_is_compatible(&self, lane: LaneType) -> bool {
        self.lane == lane && self.enabled
    }

    /// Check if model is suitable for given lane.
    pub fn is_compatible(&self, lane: LaneType) -> (r: bool)
        ensures
            r == self.spec_is_compatible(lane),
    {
        self.lane == lane && self.enabled
    }
}

/// A single translation request; immutable once constructed.
#[derive(Debug)]
pub struct TranslationRequest {
    /// Text to translate.
    pub text: String,
    /// Optional source language hint; `None` lets the upstream detect it.
    pub source_lang: Option<String>,
    /// Language to translate into.
    pub target_lang: String,
    /// Optional free-form context for the upstream.
    pub context: Option<String>,
}

impl Clone for TranslationRequest {
    fn clone(&self) -> (r: Self)
        ensures
            r == *self,
    {
        TranslationRequest {
            text: self.text.clone(),
            source_lang: self.source_lang.clone(),
            target_lang: self.target_lang.clone(),
            context: self.context.clone(),
        }
    }
}

impl TranslationRequest {
    /// Build a request with no source language and no context.
    pub fn new(text: String, target_lang: String) -> (r: Self)
        ensures
            r.text == text,
            r.source_lang is None,
            r.target_lang == target_lang,
            r.context is None,
    {
        Self { text, source_lang: None, target_lang, context: None }
    }

    /// Same request with the source language set.
    pub fn with_source_lang(self, source_lang: String) -> (r: Self)
        ensures
            r.text == self.text,
            r.source_lang == Some(source_lang),
            r.target_lang == self.target_lang,
            r.context == self.context,
    {
        let mut s = self;
        s.source_lang = Some(source_lang);
        s
    }

    /// Same request with the context set.
    pub fn with_context(self, context: String) -> (r: Self)
        ensures
            r.text == self.text,
            r.source_lang == self.source_lang,
            r.target_lang == self.target_lang,
            r.context == Some(context),
    {
        let mut s = self;
        s.context = Some(context);
        s
    }
}

/// Outcome of one successful translation attempt; never partially filled.
#[derive(Debug)]
pub struct TranslationResult {
    /// The translated text.
    pub translation: String,
    /// Source language the upstream detected, when it reported one.
    pub detected_source_lang: Option<String>,
    /// Tokens the attempt consumed, as the upstream reported.
    pub tokens_used: usize,
    /// Identifier of the model that produced the translation.
    pub model_used: String,
    /// Upstream request identifier, when one was reported.
    pub request_id: Option<String>,
}

impl Clone for TranslationResult {
    fn clone(&self) -> (r: Self)
        ensures
            r == *self,
    {
        TranslationResult {
            translation: self.translation.clone(),
            detected_source_lang: self.detected_source_lang.clone(),
            tokens_used: self.tokens_used,
            model_used: self.model_used.clone(),
            request_id: self.request_id.clone(),
        }
    }
}

/// Daily token accounting. `last_reset_day` is a UTC calendar day number;
/// usage is zeroed whenever the current day differs from it.
#[derive(Debug, Clone, Copy, PartialEq, Eq, Structural)]
pub struct TokenUsage {
    /// Budget of tokens per UTC calendar day.
    pub daily_limit: usize,
    /// Tokens consumed since the last reset.
    pub used_today: usize,
    /// UTC day number at which usage was last zeroed.
    pub last_reset_day: u32,
}

impl TokenUsage {
    /// Tokens still available today, saturating at zero.
    pub open spec fn spec_remaining(&self) -> int {
        if self.used_today <= self.daily_limit {
            self.daily_limit - self.used_today
        } else {
            0
        }
    }

    /// `self` after the day-rollover check against day `today`: unchanged on
    /// the same day, zeroed and re-stamped on any other day.
    pub open spec fn spec_rolled(&self, today: u32) -> TokenUsage {
        if today != self.last_reset_day {
            TokenUsage { daily_limit: self.daily_limit, used_today: 0, last_reset_day: today }
        } else {
            *self
        }
    }

    /// Fresh usage for day `today`: nothing consumed yet.
    pub fn new(daily_limit: usize, today: u32) -> (r: Self)
        ensures
            r == (TokenUsage { daily_limit, used_today: 0, last_reset_day: today }),
    {
        Self { daily_limit, used_today: 0, last_reset_day: today }
    }

    /// Tokens still available today.
    pub fn remaining(&self) -> (r: usize)
        ensures
            r == self.spec_remaining(),
    {
        if self.used_today <= self.daily_limit {
            self.daily_limit - self.used_today
        } else {
            0
        }
    }

    /// Whether `tokens` more can be consumed without exceeding the limit.
    pub fn can_use(&self, tokens: usize) -> (r: bool)
        ensures
            r == (self.spec_remaining() >= tokens),
    {
        self.remaining() >= tokens
    }

    /// Consume `tokens` if and only if the budget allows; otherwise leave
    /// the state unchanged and report the quota failure.
    pub fn use_tokens(&mut self, tokens: usize) -> (r: Result<(), crate::TranslationError>)
        ensures
            r is Ok <==> old(self).spec_remaining() >= tokens,
            r is Ok ==> *final(self) == (TokenUsage {
                used_today: (old(self).used_today + tokens) as usize,
                ..*old(self)
            }),
            r is Err ==> *final(self) == *old(self) && r == Err::<(), crate::TranslationError>(
                crate::TranslationError::QuotaExceededError,
            ),
    {
        if !self.can_use(tokens) {
            return Err(crate::TranslationError::QuotaExceededError);
        }
        self.used_today = self.used_today + tokens;
        Ok(())
    }

    /// Zero the usage when `today` is a different calendar day than the one
    /// usage was last reset on.
    pub fn reset_if_needed(&mut self, today: u32)
        ensures
            *final(self) == old(self).spec_rolled(today),
    {
        if today != self.last_reset_day {
            self.used_today = 0;
            self.last_reset_day = today;
        }
    }
}

} // verus!
