//! Translator configuration and the model registry built into it.

use vstd::prelude::*;
use vstd::string::StringExecFns;

use crate::errors::TranslationError;
use crate::models::LaneType;
use crate::models::Model;
use crate::text::str_eq;

verus! {

/// Read-only configuration shared by the orchestrator and the transport.
/// `models` doubles as the model registry; configured order is attempt order.
#[derive(Debug)]
pub struct TranslatorConfig {
    /// Credential sent as a bearer token with every wire call.
    pub api_key: String,
    /// URL the wire calls are posted to.
    pub api_endpoint: String,
    /// The model registry, partitioned into lanes by each entry's `lane`.
    pub models: Vec<Model>,
    /// Global ceiling on in-flight upstream calls.
    pub max_concurrent: usize,
    /// Ceiling on upstream requests per second.
    pub max_rps: u64,
    /// Retries allowed per model beyond the first attempt.
    pub max_retries: u32,
    /// Base backoff delay; attempt `n` waits `retry_delay_ms * 2^(n-1)`.
    pub retry_delay_ms: u64,
    /// Largest accepted request size, in estimated tokens.
    pub max_input_tokens: usize,
    /// Per-request deadline enforced by the transport.
    pub timeout_ms: u64,
}

/// Element-exact copy of a model vector.
fn clone_models(v: &Vec<Model>) -> (r: Vec<Model>)
    ensures
        r@ == v@,
{
    let mut r: Vec<Model> = Vec::new();
    let mut i: usize = 0;
    while i < v.len()
        invariant
            i <= v@.len(),
            r@ == v@.subrange(0, i as int),
        decreases v@.len() - i,
    {
        r.push(v[i].clone());
        assert(r@ =~= v@.subrange(0, i + 1 as int));
        i = i + 1;
    }
    assert(r@ =~= v@);
    r
}

impl Clone for TranslatorConfig {
    fn clone(&self) -> (r: Self)
        ensures
            r.api_key == self.api_key,
            r.api_endpoint == self.api_endpoint,
            r.models@ == self.models@,
            r.max_concurrent == self.max_concurrent,
            r.max_rps == self.max_rps,
            r.max_retries == self.max_retries,
            r.retry_delay_ms == self.retry_delay_ms,
            r.max_input_tokens == self.max_input_tokens,
            r.timeout_ms == self.timeout_ms,
    {
        TranslatorConfig {
            api_key: self.api_key.clone(),
            api_endpoint: self.api_endpoint.clone(),
            models: clone_models(&self.models),
            max_concurrent: self.max_concurrent,
            max_rps: self.max_rps,
            max_retries: self.max_retries,
            retry_delay_ms: self.retry_delay_ms,
            max_input_tokens: self.max_input_tokens,
            timeout_ms: self.timeout_ms,
        }
    }
}

impl Default for TranslatorConfig {
    /// Empty credential, the standard endpoint, no models, and moderate
    /// limits; `validate` refuses it until a key is supplied.
    fn default() -> (r: Self)
        ensures
            r.api_key@.len() == 0,
            r.api_endpoint@ == "https://ark.cn-beijing.volces.com/api/v3/responses"@,
            r.models@.len() == 0,
            r.max_concurrent == 20,
            r.max_rps == 10,
            r.max_retries == 3,
            r.retry_delay_ms == 1000,
            r.max_input_tokens == 900,
            r.timeout_ms == 30000,
    {
        TranslatorConfig {
            api_key: String::new(),
            api_endpoint: String::from_str("https://ark.cn-beijing.volces.com/api/v3/responses"),
            models: Vec::new(),
            max_concurrent: 20,
            max_rps: 10,
            max_retries: 3,
            retry_delay_ms: 1000,
            max_input_tokens: 900,
            timeout_ms: 30000,
        }
    }
}

impl TranslatorConfig {
    /// The load-time validation rules: a credential and an endpoint are
    /// present, and both global ceilings are positive.
    pub open spec fn spec_valid(&self) -> bool {
        &&& self.api_key@.len() > 0
        &&& self.api_endpoint@.len() > 0
        &&& self.max_concurrent > 0
        &&& self.max_rps > 0
    }

    /// Check the validation rules, reporting the first one violated.
    pub fn validate(&self) -> (r: Result<(), TranslationError>)
        ensures
            r is Ok <==> self.spec_valid(),
            self.api_key@.len() == 0 ==> (r matches Err(TranslationError::ConfigError { message })
                && message@ == api_key_required_message()),
            !self.spec_valid() ==> (r matches Err(TranslationError::ConfigError { message })
                && message@.len() > 0),
    {
        if self.api_key.as_str().is_empty() {
            proof {
                reveal_strlit("API key is required");
            }
            return Err(TranslationError::ConfigError {
                message: String::from_str("API key is required"),
            });
        }
        if self.api_endpoint.as_str().is_empty() {
            proof {
                reveal_strlit("API endpoint is required");
            }
            return Err(TranslationError::ConfigError {
                message: String::from_str("API endpoint is required"),
            });
        }
        if self.max_concurrent == 0 {
            proof {
                reveal_strlit("max_concurrent must be greater than 0");
            }
            return Err(TranslationError::ConfigError {
                message: String::from_str("max_concurrent must be greater than 0"),
            });
        }
        if self.max_rps == 0 {
            proof {
                reveal_strlit("max_rps must be greater than 0");
            }
            return Err(TranslationError::ConfigError {
                message: String::from_str("max_rps must be greater than 0"),
            });
        }
        Ok(())
    }

    /// The enabled models of `lane`, in configured order.
    pub fn get_models_by_lane(&self, lane: LaneType) -> (r: Vec<Model>)
        ensures
            r@ == lane_models(self.models@, lane),
    {
        let mut r: Vec<Model> = Vec::new();
        let mut i: usize = 0;
        while i < self.models.len()
            invariant
                i <= self.models@.len(),
                r@ == lane_models(self.models@.subrange(0, i as int), lane),
            decreases self.models@.len() - i,
        {
            proof {
                broadcast use Seq::lemma_filter_push;

                assert(self.models@.subrange(0, i + 1 as int) =~= self.models@.subrange(
                    0,
                    i as int,
                ).push(self.models@[i as int]));
            }
            let m = &self.models[i];
            if m.is_compatible(lane) {
                r.push(m.clone());
            }
            i = i + 1;
        }
        proof {
            assert(self.models@.subrange(0, self.models@.len() as int) =~= self.models@);
        }
        r
    }

    /// All enabled models, in configured order.
    pub fn get_enabled_models(&self) -> (r: Vec<Model>)
        ensures
            r@ == enabled_models(self.models@),
    {
        let mut r: Vec<Model> = Vec::new();
        let mut i: usize = 0;
        while i < self.models.len()
            invariant
                i <= self.models@.len(),
                r@ == enabled_models(self.models@.subrange(0, i as int)),
            decreases self.models@.len() - i,
        {
            proof {
                broadcast use Seq::lemma_filter_push;

                assert(self.models@.subrange(0, i + 1 as int) =~= self.models@.subrange(
                    0,
                    i as int,
                ).push(self.models@[i as int]));
            }
            let m = &self.models[i];
            if m.enabled {
                r.push(m.clone());
            }
            i = i + 1;
        }
        proof {
            assert(self.models@.subrange(0, self.models@.len() as int) =~= self.models@);
        }
        r
    }

    /// The first model whose identifier is `id`, if any.
    pub fn find_model(&self, id: &str) -> (r: Option<&Model>)
        ensures
            match r {
                Some(m) => exists|i: int|
                    {
                        &&& 0 <= i < self.models@.len()
                        &&& self.models@[i].id@ == id@
                        &&& *m == self.models@[i]
                        &&& forall|k: int| 0 <= k < i ==> self.models@[k].id@ != id@
                    },
                None => forall|i: int|
                    0 <= i < self.models@.len() ==> self.models@[i].id@ != id@,
            },
    {
        let mut i: usize = 0;
        while i < self.models.len()
            invariant
                i <= self.models@.len(),
                forall|k: int| 0 <= k < i ==> self.models@[k].id@ != id@,
            decreases self.models@.len() - i,
        {
            if str_eq(self.models[i].id.as_str(), id) {
                return Some(&self.models[i]);
            }
            i = i + 1;
        }
        None
    }

    /// The first enabled model of `lane`, if any.
    pub fn get_model_for_lane(&self, lane: LaneType) -> (r: Option<&Model>)
        ensures
            match r {
                Some(m) => exists|i: int|
                    {
                        &&& 0 <= i < self.models@.len()
                        &&& self.models@[i].spec_is_compatible(lane)
                        &&& *m == self.models@[i]
                        &&& forall|k: int|
                            0 <= k < i ==> !self.models@[k].spec_is_compatible(lane)
                    },
                None => forall|i: int|
                    0 <= i < self.models@.len() ==> !self.models@[i].spec_is_compatible(lane),
            },
    {
        let mut i: usize = 0;
        while i < self.models.len()
            invariant
                i <= self.models@.len(),
                forall|k: int| 0 <= k < i ==> !self.models@[k].spec_is_compatible(lane),
            decreases self.models@.len() - i,
        {
            if self.models[i].is_compatible(lane) {
                return Some(&self.models[i]);
            }
            i = i + 1;
        }
        None
    }

    /// The identifiers of every configured model, in order.
    pub fn get_model_ids(&self) -> (r: Vec<String>)
        ensures
            r@.len() == self.models@.len(),
            forall|i: int| 0 <= i < r@.len() ==> r@[i]@ == self.models@[i].id@,
    {
        let mut r: Vec<String> = Vec::new();
        let mut i: usize = 0;
        while i < self.models.len()
            invariant
                i <= self.models@.len(),
                r@.len() == i,
                forall|k: int| 0 <= k < i ==> r@[k]@ == self.models@[k].id@,
            decreases self.models@.len() - i,
        {
            r.push(self.models[i].id.clone());
            i = i + 1;
        }
        r
    }
}

/// Message `validate` reports when the credential is missing.
pub open spec fn api_key_required_message() -> Seq<char> {
    "API key is required"@
}

/// The enabled models of `lane`, in configured order.
pub open spec fn lane_models(models: Seq<Model>, lane: LaneType) -> Seq<Model> {
    models.filter(|m: Model| m.spec_is_compatible(lane))
}

/// All enabled models, in configured order.
pub open spec fn enabled_models(models: Seq<Model>) -> Seq<Model> {
    models.filter(|m: Model| m.enabled)
}

/// The catalog `s` is the built-in default: one slow-lane entry followed by
/// four fast-lane entries, all enabled.
pub open spec fn is_default_catalog(s: Seq<Model>) -> bool {
    &&& s.len() == 5
    &&& s[0].id@ == "doubao-seed-translation-250915"@
    &&& s[1].id@ == "deepseek-v3-250324"@
    &&& s[2].id@ == "doubao-seed-1-6-251015"@
    &&& s[3].id@ == "doubao-1-5-vision-pro-32k-250115"@
    &&& s[4].id@ == "deepseek-ai/DeepSeek-V3.2"@
    &&& s[0].lane == LaneType::Slow
    &&& forall|i: int| 1 <= i < 5 ==> s[i].lane == LaneType::Fast
    &&& forall|i: int| 0 <= i < 5 ==> s[i].enabled
    &&& s[0].rpm == 5000 && s[0].max_concurrent == 80
    &&& forall|i: int| 1 <= i < 5 ==> s[i].rpm == 30000 && s[i].max_concurrent == 500
}

/// The built-in model catalog used when none is configured.
pub fn default_models() -> (r: Vec<Model>)
    ensures
        is_default_catalog(r@),
{
    let mut r: Vec<Model> = Vec::new();
    r.push(Model {
        id: String::from_str("doubao-seed-translation-250915"),
        lane: LaneType::Slow,
        rpm: 5000,
        max_concurrent: 80,
        enabled: true,
    });
    r.push(Model {
        id: String::from_str("deepseek-v3-250324"),
        lane: LaneType::Fast,
        rpm: 30000,
        max_concurrent: 500,
        enabled: true,
    });
    r.push(Model {
        id: String::from_str("doubao-seed-1-6-251015"),
        lane: LaneType::Fast,
        rpm: 30000,
        max_concurrent: 500,
        enabled: true,
    });
    r.push(Model {
        id: String::from_str("doubao-1-5-vision-pro-32k-250115"),
        lane: LaneType::Fast,
        rpm: 30000,
        max_concurrent: 500,
        enabled: true,
    });
    r.push(Model {
        id: String::from_str("deepseek-ai/DeepSeek-V3.2"),
        lane: LaneType::Fast,
        rpm: 30000,
        max_concurrent: 500,
        enabled: true,
    });
    r
}

impl TranslatorConfig {
    /// Fill in the default catalog when no models are configured; a
    /// non-empty catalog is kept as it is.
    pub fn with_default_models(self) -> (r: Self)
        ensures
            self.models@.len() > 0 ==> r == self,
            self.models@.len() == 0 ==> {
                &&& is_default_catalog(r.models@)
                &&& r.api_key == self.api_key
                &&& r.api_endpoint == self.api_endpoint
                &&& r.max_concurrent == self.max_concurrent
                &&& r.max_rps == self.max_rps
                &&& r.max_retries == self.max_retries
                &&& r.retry_delay_ms == self.retry_delay_ms
                &&& r.max_input_tokens == self.max_input_tokens
                &&& r.timeout_ms == self.timeout_ms
            },
    {
        if self.models.len() > 0 {
            return self;
        }
        let mut s = self;
        s.models = default_models();
        s
    }
}

} // verus!
