//! A configured backend client: provider model, credential and generation
//! limits, with a stable derived identity.

use vstd::prelude::*;

use crate::models::{model_tag_spec, ModelId};
use crate::retry::RetryConfig;

verus! {

/// The offset basis of the 64-bit FNV-1a hash.
pub open spec fn fnv_offset() -> u64 {
    0xcbf29ce484222325
}

/// One FNV-1a step: fold `b` into the hash.
pub open spec fn fnv_step(h: u64, b: u32) -> u64 {
    (h ^ (b as u64)).wrapping_mul(0x100000001b3)
}

/// Folds a character sequence into an FNV-1a hash, left to right.
pub open spec fn fnv_chars(h: u64, s: Seq<char>) -> u64
    decreases s,
{
    if s.len() == 0 {
        h
    } else {
        fnv_chars(fnv_step(h, s[0] as u32), s.drop_first())
    }
}

/// The stable identity of a client: an FNV-1a hash of the model tag and the
/// credential characters.
pub open spec fn client_id_spec(model: ModelId, key: Seq<char>) -> u64 {
    fnv_chars(fnv_step(fnv_offset(), model_tag_spec(model) as u32), key)
}

/// A configured backend client. Immutable after construction; `temperature`
/// is in hundredths.
#[derive(Debug)]
pub struct LlmClient {
    pub model: ModelId,
    pub api_key: String,
    pub max_tokens: u32,
    pub temperature: u32,
    pub retry_config: Option<RetryConfig>,
}

impl Clone for LlmClient {
    /// The copy equals the original.
    fn clone(&self) -> (r: Self)
        ensures
            r == *self,
    {
        LlmClient {
            model: self.model,
            api_key: self.api_key.clone(),
            max_tokens: self.max_tokens,
            temperature: self.temperature,
            retry_config: self.retry_config,
        }
    }
}

impl LlmClient {
    /// A client for `model` with the given credential; the token limit
    /// defaults to 1500 and the temperature to 0.50.
    pub fn new(
        model: ModelId,
        api_key: Option<String>,
        max_tokens: Option<u32>,
        temperature: Option<u32>,
    ) -> (r: Self)
        requires
            api_key is Some,
        ensures
            r.model == model,
            r.api_key == api_key->Some_0,
            r.max_tokens == match max_tokens {
                Some(t) => t,
                None => 1500u32,
            },
            r.temperature == match temperature {
                Some(t) => t,
                None => 50u32,
            },
            r.retry_config is None,
    {
        let key = match api_key {
            Some(k) => k,
            None => String::new(),
        };
        LlmClient {
            model,
            api_key: key,
            max_tokens: match max_tokens {
                Some(t) => t,
                None => 1500,
            },
            temperature: match temperature {
                Some(t) => t,
                None => 50,
            },
            retry_config: None,
        }
    }

    /// The same client with an explicit retry configuration.
    pub fn with_retry_config(self, retry_config: RetryConfig) -> (r: Self)
        ensures
            r == (LlmClient { retry_config: Some(retry_config), ..self }),
    {
        LlmClient { retry_config: Some(retry_config), ..self }
    }

    /// The stable identity of this client, derived from its model and
    /// credential.
    pub fn id(&self) -> (r: u64)
        ensures
            r == client_id_spec(self.model, self.api_key@),
    {
        let tag = crate::models::model_tag(self.model);
        let mut h: u64 = 0xcbf29ce484222325;
        h = fnv_fold(h, tag as u32);
        let key = self.api_key.as_str();
        let len = key.unicode_len();
        let mut i: usize = 0;
        proof {
            assert(key@.subrange(0, len as int) =~= key@);
        }
        let ghost h0 = h;
        while i < len
            invariant
                len == key@.len(),
                i <= len,
                fnv_chars(h0, key@) == fnv_chars(h, key@.subrange(i as int, len as int)),
            decreases len - i,
        {
            let c = key.get_char(i);
            proof {
                let suffix = key@.subrange(i as int, len as int);
                assert(suffix[0] == key@[i as int]);
                assert(suffix.drop_first() =~= key@.subrange(i + 1, len as int));
            }
            h = fnv_fold(h, c as u32);
            i = i + 1;
        }
        proof {
            assert(key@.subrange(0, len as int) =~= key@);
            assert(key@.subrange(len as int, len as int) =~= Seq::<char>::empty());
        }
        h
    }

    /// A builder for clients.
    pub fn builder() -> (r: LlmClientBuilder)
        ensures
            r == LlmClientBuilder::empty_spec(),
    {
        LlmClientBuilder::new()
    }

    /// A builder with the model already chosen.
    pub fn with_model(model: ModelId) -> (r: LlmClientBuilder)
        ensures
            r == (LlmClientBuilder { model: Some(model), ..LlmClientBuilder::empty_spec() }),
    {
        LlmClientBuilder::new().model(model)
    }
}

/// One FNV-1a fold step.
fn fnv_fold(h: u64, b: u32) -> (r: u64)
    ensures
        r == fnv_step(h, b),
{
    (h ^ (b as u64)).wrapping_mul(0x100000001b3)
}

/// Why a client could not be built.
#[derive(Debug, Clone, Copy, PartialEq, Eq, Structural)]
pub enum LlmClientBuilderError {
    /// No model was specified.
    MissingModel,
}

/// Builder for constructing clients with fluent configuration.
#[derive(Debug)]
pub struct LlmClientBuilder {
    pub model: Option<ModelId>,
    pub api_key: Option<String>,
    pub max_tokens: Option<u32>,
    pub temperature: Option<u32>,
    pub retry_config: Option<RetryConfig>,
}

impl LlmClientBuilder {
    /// The builder with nothing set.
    pub open spec fn empty_spec() -> LlmClientBuilder {
        LlmClientBuilder {
            model: None,
            api_key: None,
            max_tokens: None,
            temperature: None,
            retry_config: None,
        }
    }

    /// Create a new builder instance.
    pub fn new() -> (r: Self)
        ensures
            r == LlmClientBuilder::empty_spec(),
    {
        LlmClientBuilder {
            model: None,
            api_key: None,
            max_tokens: None,
            temperature: None,
            retry_config: None,
        }
    }

    /// Set the model (required).
    pub fn model(self, model: ModelId) -> (r: Self)
        ensures
            r == (LlmClientBuilder { model: Some(model), ..self }),
    {
        LlmClientBuilder { model: Some(model), ..self }
    }

    /// Set the API key explicitly.
    pub fn api_key(self, api_key: String) -> (r: Self)
        ensures
            r == (LlmClientBuilder { api_key: Some(api_key), ..self }),
    {
        LlmClientBuilder { api_key: Some(api_key), ..self }
    }

    /// Set the token limit.
    pub fn max_tokens(self, max_tokens: u32) -> (r: Self)
        ensures
            r == (LlmClientBuilder { max_tokens: Some(max_tokens), ..self }),
    {
        LlmClientBuilder { max_tokens: Some(max_tokens), ..self }
    }

    /// Set the temperature, in hundredths.
    pub fn temperature(self, temperature: u32) -> (r: Self)
        ensures
            r == (LlmClientBuilder { temperature: Some(temperature), ..self }),
    {
        LlmClientBuilder { temperature: Some(temperature), ..self }
    }

    /// Set the retry configuration.
    pub fn retry_config(self, retry_config: RetryConfig) -> (r: Self)
        ensures
            r == (LlmClientBuilder { retry_config: Some(retry_config), ..self }),
    {
        LlmClientBuilder { retry_config: Some(retry_config), ..self }
    }

    /// Enable retries with the default configuration.
    pub fn with_retries(self) -> (r: Self)
        ensures
            r == (LlmClientBuilder {
                retry_config: Some(RetryConfig::default_spec()),
                ..self
            }),
    {
        LlmClientBuilder { retry_config: Some(RetryConfig::default()), ..self }
    }

    /// Configure retry settings fluently.
    pub fn retry_settings(self) -> (r: RetryConfigBuilder)
        ensures
            r == (RetryConfigBuilder {
                client_builder: self,
                max_retries: None,
                initial_interval: None,
                max_interval: None,
                multiplier: None,
                max_elapsed_time: None,
            }),
    {
        RetryConfigBuilder::new(self)
    }

    /// Build the client; a missing model is the one configuration error.
    pub fn build(self) -> (r: Result<LlmClient, LlmClientBuilderError>)
        requires
            self.model is Some ==> self.api_key is Some,
        ensures
            self.model is None ==> r == Err::<LlmClient, LlmClientBuilderError>(
                LlmClientBuilderError::MissingModel,
            ),
            self.model is Some ==> (r matches Ok(c) && {
                &&& c.model == self.model->Some_0
                &&& c.api_key == self.api_key->Some_0
                &&& c.max_tokens == match self.max_tokens {
                    Some(t) => t,
                    None => 1500u32,
                }
                &&& c.temperature == match self.temperature {
                    Some(t) => t,
                    None => 50u32,
                }
                &&& c.retry_config == self.retry_config
            }),
    {
        let model = match self.model {
            Some(m) => m,
            None => {
                return Err(LlmClientBuilderError::MissingModel);
            },
        };
        let mut client = LlmClient::new(model, self.api_key, self.max_tokens, self.temperature);
        if let Some(retry_config) = self.retry_config {
            client = client.with_retry_config(retry_config);
        }
        Ok(client)
    }
}

impl Default for LlmClientBuilder {
    /// The builder with nothing set.
    fn default() -> (r: Self)
        ensures
            r == LlmClientBuilder::empty_spec(),
    {
        LlmClientBuilder::new()
    }
}

/// Builder for retry configuration, returning to the client builder when
/// finished.
#[derive(Debug)]
pub struct RetryConfigBuilder {
    pub client_builder: LlmClientBuilder,
    pub max_retries: Option<u32>,
    pub initial_interval: Option<u64>,
    pub max_interval: Option<u64>,
    pub multiplier: Option<u32>,
    pub max_elapsed_time: Option<u64>,
}

impl RetryConfigBuilder {
    /// A retry builder wrapping `client_builder`, with nothing set.
    fn new(client_builder: LlmClientBuilder) -> (r: Self)
        ensures
            r == (RetryConfigBuilder {
                client_builder,
                max_retries: None,
                initial_interval: None,
                max_interval: None,
                multiplier: None,
                max_elapsed_time: None,
            }),
    {
        RetryConfigBuilder {
            client_builder,
            max_retries: None,
            initial_interval: None,
            max_interval: None,
            multiplier: None,
            max_elapsed_time: None,
        }
    }

    /// Set the maximum number of retries.
    pub fn max_retries(self, max_retries: u32) -> (r: Self)
        ensures
            r == (RetryConfigBuilder { max_retries: Some(max_retries), ..self }),
    {
        RetryConfigBuilder { max_retries: Some(max_retries), ..self }
    }

    /// Set the initial retry interval, in milliseconds.
    pub fn initial_interval(self, duration: u64) -> (r: Self)
        ensures
            r == (RetryConfigBuilder { initial_interval: Some(duration), ..self }),
    {
        RetryConfigBuilder { initial_interval: Some(duration), ..self }
    }

    /// Set the maximum retry interval, in milliseconds.
    pub fn max_interval(self, duration: u64) -> (r: Self)
        ensures
            r == (RetryConfigBuilder { max_interval: Some(duration), ..self }),
    {
        RetryConfigBuilder { max_interval: Some(duration), ..self }
    }

    /// Set the backoff multiplier, in hundredths.
    pub fn multiplier(self, multiplier: u32) -> (r: Self)
        ensures
            r == (RetryConfigBuilder { multiplier: Some(multiplier), ..self }),
    {
        RetryConfigBuilder { multiplier: Some(multiplier), ..self }
    }

    /// Set the total retry budget, in milliseconds.
    pub fn max_elapsed_time(self, duration: u64) -> (r: Self)
        ensures
            r == (RetryConfigBuilder { max_elapsed_time: Some(duration), ..self }),
    {
        RetryConfigBuilder { max_elapsed_time: Some(duration), ..self }
    }

    /// The configuration this builder denotes: each unset field takes its
    /// default.
    pub open spec fn config_spec(self) -> RetryConfig {
        RetryConfig {
            max_retries: match self.max_retries {
                Some(v) => v,
                None => 5u32,
            },
            initial_interval: match self.initial_interval {
                Some(v) => v,
                None => 1000u64,
            },
            max_interval: match self.max_interval {
                Some(v) => v,
                None => 60000u64,
            },
            multiplier: match self.multiplier {
                Some(v) => v,
                None => 200u32,
            },
            max_elapsed_time: match self.max_elapsed_time {
                Some(v) => v,
                None => 300000u64,
            },
        }
    }

    /// Finish retry configuration and return to the client builder.
    pub fn finish(self) -> (r: LlmClientBuilder)
        ensures
            r == (LlmClientBuilder {
                retry_config: Some(self.config_spec()),
                ..self.client_builder
            }),
    {
        let retry_config = RetryConfig {
            max_retries: match self.max_retries {
                Some(v) => v,
                None => 5,
            },
            initial_interval: match self.initial_interval {
                Some(v) => v,
                None => 1000,
            },
            max_interval: match self.max_interval {
                Some(v) => v,
                None => 60000,
            },
            multiplier: match self.multiplier {
                Some(v) => v,
                None => 200,
            },
            max_elapsed_time: match self.max_elapsed_time {
                Some(v) => v,
                None => 300000,
            },
        };
        LlmClientBuilder { retry_config: Some(retry_config), ..self.client_builder }
    }

    /// Build the client directly with the retry configuration applied.
    pub fn build(self) -> (r: Result<LlmClient, LlmClientBuilderError>)
        requires
            self.client_builder.model is Some ==> self.client_builder.api_key is Some,
        ensures
            self.client_builder.model is None ==> r == Err::<LlmClient, LlmClientBuilderError>(
                LlmClientBuilderError::MissingModel,
            ),
            self.client_builder.model is Some ==> (r matches Ok(c) && c.retry_config == Some(
                self.config_spec(),
            )),
    {
        self.finish().build()
    }
}

} // verus!
