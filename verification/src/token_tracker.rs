//! Daily token quota: gate and account for consumption, with reset on UTC
//! calendar-day rollover.

use vstd::prelude::*;

use crate::errors::TranslationError;
use crate::models::TokenUsage;

verus! {

/// Quota gate over a [`TokenUsage`]. All mutation of the counter goes through
/// this type; callers that share a tracker serialize access around it.
#[derive(Debug, Clone, Copy, PartialEq, Eq, Structural)]
pub struct TokenTracker {
    usage: TokenUsage,
}

/// Current UTC calendar day.
///
/// Relies on chrono's `Utc::now`: the wall clock is read once and the date
/// part is converted to its day number in the proleptic Gregorian calendar
/// (`num_days_from_ce`).
#[verifier::external_body]
fn current_day() -> u32 {
    chrono::Datelike::num_days_from_ce(&chrono::Utc::now().date_naive()) as u32
}

impl TokenTracker {
    /// The accounting state the tracker guards.
    pub closed spec fn spec_usage(&self) -> TokenUsage {
        self.usage
    }

    /// Fresh tracker for day `today` with the given daily budget.
    pub fn new(daily_limit: usize, today: u32) -> (r: Self)
        ensures
            r.spec_usage() == (TokenUsage { daily_limit, used_today: 0, last_reset_day: today }),
    {
        TokenTracker { usage: TokenUsage::new(daily_limit, today) }
    }

    /// Fresh tracker stamped with the current UTC day.
    pub fn new_today(daily_limit: usize) -> (r: Self)
        ensures
            r.spec_usage().daily_limit == daily_limit,
            r.spec_usage().used_today == 0,
    {
        Self::new(daily_limit, current_day())
    }

    /// Roll the day over if `today` differs from the last reset, then report
    /// whether `tokens` more would fit in the budget.
    pub fn can_use_on(&mut self, tokens: usize, today: u32) -> (r: bool)
        ensures
            final(self).spec_usage() == old(self).spec_usage().spec_rolled(today),
            r == (old(self).spec_usage().spec_rolled(today).spec_remaining() >= tokens),
    {
        self.usage.reset_if_needed(today);
        self.usage.can_use(tokens)
    }

    /// Roll the day over if needed, then consume `tokens` if and only if the
    /// whole amount fits in the remaining budget; otherwise the counter is
    /// left as the rollover check left it.
    pub fn use_tokens_on(&mut self, tokens: usize, today: u32) -> (r: Result<
        (),
        TranslationError,
    >)
        ensures
            ({
                let rolled = old(self).spec_usage().spec_rolled(today);
                &&& r is Ok <==> rolled.spec_remaining() >= tokens
                &&& r is Ok ==> final(self).spec_usage() == (TokenUsage {
                    used_today: (rolled.used_today + tokens) as usize,
                    ..rolled
                })
                &&& r is Err ==> final(self).spec_usage() == rolled && r == Err::<(), TranslationError>(
                    TranslationError::QuotaExceededError,
                )
            }),
    {
        self.usage.reset_if_needed(today);
        self.usage.use_tokens(tokens)
    }

    /// Rollover check against the current UTC day, then a budget query.
    pub fn can_use(&mut self, tokens: usize) -> (r: bool)
        ensures
            exists|d: u32|
                #![trigger old(self).spec_usage().spec_rolled(d)]
                {
                    let rolled = old(self).spec_usage().spec_rolled(d);
                    &&& final(self).spec_usage() == rolled
                    &&& r == (rolled.spec_remaining() >= tokens)
                },
    {
        let today = current_day();
        self.can_use_on(tokens, today)
    }

    /// Rollover check against the current UTC day, then an all-or-nothing
    /// consumption of `tokens`.
    pub fn use_tokens(&mut self, tokens: usize) -> (r: Result<(), TranslationError>)
        ensures
            exists|d: u32|
                #![trigger old(self).spec_usage().spec_rolled(d)]
                {
                    let rolled = old(self).spec_usage().spec_rolled(d);
                    &&& r is Ok <==> rolled.spec_remaining() >= tokens
                    &&& r is Ok ==> final(self).spec_usage() == (TokenUsage {
                        used_today: (rolled.used_today + tokens) as usize,
                        ..rolled
                    })
                    &&& r is Err ==> final(self).spec_usage() == rolled && r == Err::<
                        (),
                        TranslationError,
                    >(TranslationError::QuotaExceededError)
                },
    {
        let today = current_day();
        self.use_tokens_on(tokens, today)
    }

    /// Snapshot of the accounting state.
    pub fn get_stats(&self) -> (r: TokenUsage)
        ensures
            r == self.spec_usage(),
    {
        self.usage
    }

    /// Tokens still available, without a rollover check.
    pub fn remaining(&self) -> (r: usize)
        ensures
            r == self.spec_usage().spec_remaining(),
    {
        self.usage.remaining()
    }

    /// Whether less than a tenth of the daily budget is left.
    pub fn is_low(&self) -> (r: bool)
        ensures
            r == (self.spec_usage().spec_remaining() < self.spec_usage().daily_limit as int / 10),
    {
        self.usage.remaining() < self.usage.daily_limit / 10
    }

    /// Administrative override: zero the counter and stamp day `today`.
    pub fn reset_on(&mut self, today: u32)
        ensures
            final(self).spec_usage() == (TokenUsage {
                daily_limit: old(self).spec_usage().daily_limit,
                used_today: 0,
                last_reset_day: today,
            }),
    {
        let limit = self.usage.daily_limit;
        self.usage = TokenUsage::new(limit, today);
    }

    /// Administrative override stamped with the current UTC day.
    pub fn reset(&mut self)
        ensures
            final(self).spec_usage().daily_limit == old(self).spec_usage().daily_limit,
            final(self).spec_usage().used_today == 0,
    {
        self.reset_on(current_day());
    }
}

/// The accounting state after `n` further all-or-nothing draws of `t` tokens,
/// all on the day the state is already stamped with.
pub open spec fn usage_after_draws(u: TokenUsage, t: usize, n: nat) -> TokenUsage
    decreases n,
{
    if n == 0 {
        u
    } else {
        let prev = usage_after_draws(u, t, (n - 1) as nat);
        if prev.spec_remaining() >= t {
            TokenUsage { used_today: (prev.used_today + t) as usize, ..prev }
        } else {
            prev
        }
    }
}

/// How many of `n` all-or-nothing draws of `t` tokens succeed.
pub open spec fn draws_granted(u: TokenUsage, t: usize, n: nat) -> nat
    decreases n,
{
    if n == 0 {
        0
    } else {
        let prev = usage_after_draws(u, t, (n - 1) as nat);
        draws_granted(u, t, (n - 1) as nat) + if prev.spec_remaining() >= t {
            1nat
        } else {
            0nat
        }
    }
}

/// Quota atomicity: however many draws of `t` tokens are made against a
/// budget with `R` tokens remaining, the total granted never exceeds `R`,
/// and the number of successful draws is exactly `min(n, R / t)` — no
/// interleaving of draws can admit more.
pub proof fn lemma_quota_atomicity(u: TokenUsage, t: usize, n: nat)
    requires
        t > 0,
        u.used_today <= u.daily_limit,
    ensures
        usage_after_draws(u, t, n).daily_limit == u.daily_limit,
        usage_after_draws(u, t, n).used_today == u.used_today + t * draws_granted(u, t, n),
        t * draws_granted(u, t, n) <= u.spec_remaining(),
        draws_granted(u, t, n) == vstd::math::min(n as int, u.spec_remaining() / t as int),
    decreases n,
{
    let s = draws_granted(u, t, n);
    let r = u.spec_remaining();
    if n == 0 {
        assert(r / t as int >= 0) by {
            vstd::arithmetic::div_mod::lemma_div_is_ordered(0, r, t as int);
        }
    } else {
        lemma_quota_atomicity(u, t, (n - 1) as nat);
        let prev = usage_after_draws(u, t, (n - 1) as nat);
        let sp = draws_granted(u, t, (n - 1) as nat);
        let q = r / t as int;
        vstd::arithmetic::div_mod::lemma_fundamental_div_mod(r, t as int);
        let m = r % t as int;
        assert(0 <= m < t) by {
            vstd::arithmetic::div_mod::lemma_mod_bound(r, t as int);
        }
        assert(r == q * t + m);
        assert(t * (sp + 1) == t * sp + t) by (nonlinear_arith);
        if prev.spec_remaining() >= t {
            // the draw succeeds: sp < q, so one more fits
            assert(prev.spec_remaining() == r - t * sp);
            assert(t * sp + t <= r);
            assert(sp < q) by {
                if sp >= q {
                    assert(t * sp >= t * q) by (nonlinear_arith)
                        requires
                            sp >= q,
                            t > 0,
                    ;
                }
            }
            assert(sp + 1 <= q);
            assert(t * (sp + 1) <= t * q) by (nonlinear_arith)
                requires
                    sp + 1 <= q,
                    t > 0,
            ;
        } else {
            // the draw fails: everything that fits was already granted
            assert(prev.spec_remaining() == r - t * sp);
            assert(r - t * sp < t);
            assert(sp >= q) by {
                if sp < q {
                    assert(t * (sp + 1) <= t * q) by (nonlinear_arith)
                        requires
                            sp + 1 <= q,
                            t > 0,
                    ;
                    assert(t * (sp + 1) == t * sp + t) by (nonlinear_arith);
                }
            }
            assert(sp == vstd::math::min((n - 1) as int, q));
        }
    }
}

/// Day rollover: whenever the current day differs from the day of the last
/// reset, the rollover check zeroes the counter before anything is evaluated
/// against it, whatever was consumed before.
pub proof fn lemma_day_rollover(u: TokenUsage, today: u32)
    requires
        u.last_reset_day != today,
    ensures
        u.spec_rolled(today).used_today == 0,
        u.spec_rolled(today).daily_limit == u.daily_limit,
        u.spec_rolled(today).last_reset_day == today,
{
}

} // verus!
