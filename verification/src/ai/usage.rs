//! Token counts of which none counts the same token twice.
//!
//! What a provider reports is brought into this form by its normalizer: input
//! that was read from a cache does not count as input.

use vstd::prelude::*;
use crate::json::{Json, JsonModel};

verus! {

/// The tokens of a reply, each counted once.
#[derive(Debug, Clone, Copy, PartialEq, Eq, Structural)]
pub struct Usage {
    /// Input that was not read from a cache.
    pub input: u64,
    pub output: u64,
    /// Input that was read from a cache.
    pub cache_read: u64,
    /// Input that was written to a cache.
    pub cache_write: u64,
    /// The sum of the others.
    pub total_tokens: u64,
}

impl Default for Usage {
    fn default() -> (r: Self)
        ensures
            r == (Usage { input: 0, output: 0, cache_read: 0, cache_write: 0, total_tokens: 0 }),
    {
        Usage { input: 0, output: 0, cache_read: 0, cache_write: 0, total_tokens: 0 }
    }
}

impl Usage {
    /// Whether the total is the sum of the parts.
    pub open spec fn adds_up(self) -> bool {
        self.total_tokens == self.input + self.output + self.cache_read + self.cache_write
    }

    /// The usage with these parts.
    pub fn from_components(input: u64, output: u64, cache_read: u64, cache_write: u64) -> (r: Self)
        requires
            input + output + cache_read + cache_write <= u64::MAX,
        ensures
            r.input == input,
            r.output == output,
            r.cache_read == cache_read,
            r.cache_write == cache_write,
            r.adds_up(),
    {
        Usage { input, output, cache_read, cache_write, total_tokens: input + output + cache_read + cache_write }
    }
}

/// The input that was not read from a cache.
pub open spec fn uncached(prompt_tokens: u64, cached: u64) -> int {
    if prompt_tokens >= cached {
        prompt_tokens - cached
    } else {
        0
    }
}

/// Brings what a provider reports into the form of [`Usage`].
pub trait UsageNormalizer {
    /// The input that was read from a cache, by what a provider says beyond the
    /// number of tokens of the prompt and of the completion.
    open spec fn cached(&self, extra: JsonModel) -> u64 {
        arbitrary()
    }

    /// The input that was written to a cache, by what a provider says.
    open spec fn stored(&self, extra: JsonModel) -> u64 {
        arbitrary()
    }

    /// The input that was read from a cache.
    fn cached_tokens(&self, extra: &Json) -> (r: u64)
        ensures
            r == self.cached(extra.model()),
    ;

    /// The input that was written to a cache.
    fn stored_tokens(&self, extra: &Json) -> (r: u64)
        ensures
            r == self.stored(extra.model()),
    ;

    /// The usage of a reply, whose prompt counts cached input as well.
    fn normalize(&self, prompt_tokens: u64, completion_tokens: u64, extra: &Json) -> (r: Usage)
        requires
            uncached(prompt_tokens, self.cached(extra.model())) + completion_tokens + self.cached(extra.model())
                + self.stored(extra.model()) <= u64::MAX,
        ensures
            r.input == uncached(prompt_tokens, self.cached(extra.model())),
            r.output == completion_tokens,
            r.cache_read == self.cached(extra.model()),
            r.cache_write == self.stored(extra.model()),
            r.adds_up(),
    ;
}

/// The usage of a reply, if its total can be counted.
pub fn checked_normalize<N: UsageNormalizer>(
    normalizer: &N,
    prompt_tokens: u64,
    completion_tokens: u64,
    extra: &Json,
) -> (r: Option<Usage>)
    ensures
        ({
            let cached = normalizer.cached(extra.model());
            let stored = normalizer.stored(extra.model());
            let total = uncached(prompt_tokens, cached) + completion_tokens + cached + stored;
            match r {
                Some(u) => total <= u64::MAX && u == (Usage {
                    input: uncached(prompt_tokens, cached) as u64,
                    output: completion_tokens,
                    cache_read: cached,
                    cache_write: stored,
                    total_tokens: total as u64,
                }),
                None => total > u64::MAX,
            }
        }),
{
    let cached = normalizer.cached_tokens(extra);
    let stored = normalizer.stored_tokens(extra);
    let input = prompt_tokens.saturating_sub(cached);
    if completion_tokens > u64::MAX - input || cached > u64::MAX - input - completion_tokens || stored > u64::MAX
        - input - completion_tokens - cached {
        return None;
    }
    Some(normalizer.normalize(prompt_tokens, completion_tokens, extra))
}

/// An unsigned number, or 0 if there is none.
pub open spec fn number_or_zero(v: Option<JsonModel>) -> u64 {
    match v {
        Some(v) => match v.unsigned() {
            Some(n) => n,
            None => 0,
        },
        None => 0,
    }
}

/// The cached input as OpenAI reports it.
pub open spec fn openai_cached(extra: JsonModel) -> u64 {
    match extra.field("prompt_tokens_details"@) {
        Some(details) => number_or_zero(details.field("cached_tokens"@)),
        None => 0,
    }
}

/// The cached input as DeepSeek reports it.
pub open spec fn deepseek_cached(extra: JsonModel) -> u64 {
    number_or_zero(extra.field("prompt_cache_hit_tokens"@))
}

/// An unsigned number, or 0 if there is none.
fn read_number(v: Option<&Json>) -> (r: u64)
    ensures
        r == number_or_zero(crate::json::optional_model(v)),
{
    match v {
        Some(v) => match v.as_u64() {
            Some(n) => n,
            None => 0,
        },
        None => 0,
    }
}

/// Reads what OpenAI reports.
#[derive(Debug, Clone, Copy)]
pub struct OpenAiUsageNormalizer;

impl Default for OpenAiUsageNormalizer {
    fn default() -> (r: Self)
        ensures
            r == OpenAiUsageNormalizer,
    {
        OpenAiUsageNormalizer
    }
}

impl UsageNormalizer for OpenAiUsageNormalizer {
    open spec fn cached(&self, extra: JsonModel) -> u64 {
        openai_cached(extra)
    }

    /// No input is reported as written to a cache.
    open spec fn stored(&self, extra: JsonModel) -> u64 {
        0
    }

    fn cached_tokens(&self, extra: &Json) -> (r: u64) {
        match extra.get("prompt_tokens_details") {
            Some(details) => read_number(details.get("cached_tokens")),
            None => 0,
        }
    }

    fn stored_tokens(&self, _extra: &Json) -> (r: u64) {
        0
    }

    fn normalize(&self, prompt_tokens: u64, completion_tokens: u64, extra: &Json) -> (r: Usage) {
        let cached = self.cached_tokens(extra);
        Usage::from_components(prompt_tokens.saturating_sub(cached), completion_tokens, cached, 0)
    }
}

/// Reads what DeepSeek reports.
#[derive(Debug, Clone, Copy)]
pub struct DeepSeekUsageNormalizer;

impl Default for DeepSeekUsageNormalizer {
    fn default() -> (r: Self)
        ensures
            r == DeepSeekUsageNormalizer,
    {
        DeepSeekUsageNormalizer
    }
}

impl UsageNormalizer for DeepSeekUsageNormalizer {
    open spec fn cached(&self, extra: JsonModel) -> u64 {
        deepseek_cached(extra)
    }

    /// No input is reported as written to a cache.
    open spec fn stored(&self, extra: JsonModel) -> u64 {
        0
    }

    fn cached_tokens(&self, extra: &Json) -> (r: u64) {
        read_number(extra.get("prompt_cache_hit_tokens"))
    }

    fn stored_tokens(&self, _extra: &Json) -> (r: u64) {
        0
    }

    fn normalize(&self, prompt_tokens: u64, completion_tokens: u64, extra: &Json) -> (r: Usage) {
        let cached = self.cached_tokens(extra);
        Usage::from_components(prompt_tokens.saturating_sub(cached), completion_tokens, cached, 0)
    }
}

/// No token is counted twice: where the cached input is part of the prompt, the
/// total is the prompt and the completion.
pub proof fn lemma_nothing_counted_twice(u: Usage, prompt_tokens: u64, completion_tokens: u64, cached: u64)
    requires
        cached <= prompt_tokens,
        u.input == uncached(prompt_tokens, cached),
        u.output == completion_tokens,
        u.cache_read == cached,
        u.cache_write == 0,
        u.adds_up(),
    ensures
        u.total_tokens == prompt_tokens + completion_tokens,
        u.input + u.cache_read == prompt_tokens,
{
}

/// What a provider says of cached input is counted: the number that stands where the
/// provider puts it, and none where there is no number.
pub proof fn lemma_cached_input_is_found(
    fields: Map<Seq<char>, JsonModel>,
    details: Map<Seq<char>, JsonModel>,
    n: serde_json::Number,
    count: u64,
)
    requires
        crate::json::number_as_u64(n) == Some(count),
    ensures
        fields.contains_key("prompt_cache_hit_tokens"@) && fields["prompt_cache_hit_tokens"@] == JsonModel::Number(n)
            ==> deepseek_cached(JsonModel::Object(fields)) == count,
        !fields.contains_key("prompt_cache_hit_tokens"@) ==> deepseek_cached(JsonModel::Object(fields)) == 0,
        fields.contains_key("prompt_tokens_details"@) && fields["prompt_tokens_details"@] == JsonModel::Object(details)
            && details.contains_key("cached_tokens"@) && details["cached_tokens"@] == JsonModel::Number(n)
            ==> openai_cached(JsonModel::Object(fields)) == count,
        !fields.contains_key("prompt_tokens_details"@) ==> openai_cached(JsonModel::Object(fields)) == 0,
        fields.contains_key("prompt_tokens_details"@) && fields["prompt_tokens_details"@] == JsonModel::Object(details)
            && !details.contains_key("cached_tokens"@) ==> openai_cached(JsonModel::Object(fields)) == 0,
{
}

/// The input that was not read from a cache is the rest of the prompt, and never less than
/// nothing.
pub proof fn lemma_uncached_input(prompt_tokens: u64, cached: u64)
    ensures
        uncached(prompt_tokens, cached) >= 0,
        cached <= prompt_tokens ==> uncached(prompt_tokens, cached) + cached == prompt_tokens,
        cached > prompt_tokens ==> uncached(prompt_tokens, cached) == 0,
{
}

/// Neither way of counting reports input that was written to a cache.
pub proof fn lemma_nothing_is_stored(openai: OpenAiUsageNormalizer, deepseek: DeepSeekUsageNormalizer, extra: JsonModel)
    ensures
        openai.stored(extra) == 0,
        deepseek.stored(extra) == 0,
        openai.cached(extra) == openai_cached(extra),
        deepseek.cached(extra) == deepseek_cached(extra),
{
}

} // verus!
