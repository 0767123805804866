//! The canonical token model.
//!
//! [`TokenUsage`] holds a disjoint partition with private fields. The ways to
//! make one from a provider's numbers each encode that provider's semantics
//! exactly once, so the cached part of OpenAI's input cannot be counted twice.
use vstd::prelude::*;
use vstd::std_specs::convert::FromSpecImpl;
use vstd::string::StringExecFns;

use crate::measurement::clamp_u64;
use crate::native::{or_zero, AnthropicUsage, OpenAiUsage};
use crate::text::{dec, dec_u64, Text};
use crate::tokens::{bands_max, bands_sum, no_tokens, TokenBands};

verus! {

/// A provider's usage, normalized into mutually exclusive buckets.
#[derive(Debug, Clone, Copy, PartialEq, Eq, Structural)]
pub struct TokenUsage {
    bands: TokenBands,
}

/// A provider's numbers did not satisfy the provider's own stated semantics.
#[derive(Debug, Clone, Copy, PartialEq, Eq, Structural)]
pub enum NormalizeError {
    CachedExceedsInput { input: u64, cached: u64 },
    ReasoningExceedsOutput { output: u64, reasoning: u64 },
    CacheTtlSplitMismatch { split_sum: u64, reported: u64 },
    ProviderTotalMismatch { computed: u64, reported: u64 },
}

/// Usage that is kept although the provider contradicted itself, together with
/// the contradiction.
#[derive(Debug, Clone, Copy, PartialEq, Eq, Structural)]
pub struct NormalizedUsage {
    pub usage: TokenUsage,
    pub discrepancy: Option<NormalizeError>,
}

impl View for TokenUsage {
    type V = TokenBands;

    closed spec fn view(&self) -> TokenBands {
        self.bands
    }
}

/// What a [`NormalizeError`] says.
pub open spec fn normalize_message(e: NormalizeError) -> Text {
    match e {
        NormalizeError::CachedExceedsInput { input, cached } => {
            "cached_input_tokens ("@ + dec(cached as nat) + ") exceeds input_tokens ("@ + dec(
                input as nat,
            ) + "); OpenAI semantics require cached to be a subset"@
        },
        NormalizeError::ReasoningExceedsOutput { output, reasoning } => {
            "reasoning_output_tokens ("@ + dec(reasoning as nat) + ") exceeds output_tokens ("@
                + dec(output as nat) + "); reasoning must be a subset of output"@
        },
        NormalizeError::CacheTtlSplitMismatch { split_sum, reported } => {
            "cache_creation TTL split ("@ + dec(split_sum as nat)
                + ") does not equal cache_creation_input_tokens ("@ + dec(reported as nat) + ")"@
        },
        NormalizeError::ProviderTotalMismatch { computed, reported } => {
            "provider total_tokens ("@ + dec(reported as nat)
                + ") does not equal input + output ("@ + dec(computed as nat) + ")"@
        },
    }
}

fn with_two_counts(a: &str, x: u64, b: &str, y: u64, c: &str) -> (s: String)
    ensures
        s@ == a@ + dec(x as nat) + b@ + dec(y as nat) + c@,
{
    let mut s = a.to_owned();
    s.append(dec_u64(x).as_str());
    s.append(b);
    s.append(dec_u64(y).as_str());
    s.append(c);
    s
}

impl NormalizeError {
    /// The error in words.
    pub fn message(&self) -> (s: String)
        ensures
            s@ == normalize_message(*self),
    {
        match *self {
            NormalizeError::CachedExceedsInput { input, cached } => with_two_counts(
                "cached_input_tokens (",
                cached,
                ") exceeds input_tokens (",
                input,
                "); OpenAI semantics require cached to be a subset",
            ),
            NormalizeError::ReasoningExceedsOutput { output, reasoning } => with_two_counts(
                "reasoning_output_tokens (",
                reasoning,
                ") exceeds output_tokens (",
                output,
                "); reasoning must be a subset of output",
            ),
            NormalizeError::CacheTtlSplitMismatch { split_sum, reported } => with_two_counts(
                "cache_creation TTL split (",
                split_sum,
                ") does not equal cache_creation_input_tokens (",
                reported,
                ")",
            ),
            NormalizeError::ProviderTotalMismatch { computed, reported } => with_two_counts(
                "provider total_tokens (",
                reported,
                ") does not equal input + output (",
                computed,
                ")",
            ),
        }
    }
}

/// Anthropic's buckets, which are disjoint already. Cache writes go by their
/// split where there is one, and else into the bucket without a time to live.
pub open spec fn anthropic_bands(u: AnthropicUsage) -> TokenBands {
    TokenBands {
        input_fresh: or_zero(u.input_tokens),
        cache_read: or_zero(u.cache_read_input_tokens),
        cache_write_5m: match u.cache_creation {
            Some(c) => or_zero(c.ephemeral_5m_input_tokens),
            None => 0,
        },
        cache_write_1h: match u.cache_creation {
            Some(c) => or_zero(c.ephemeral_1h_input_tokens),
            None => 0,
        },
        cache_write_unspecified: match u.cache_creation {
            Some(_) => 0,
            None => or_zero(u.cache_creation_input_tokens),
        },
        output_total: or_zero(u.output_tokens),
        reasoning: None,
        unclassified: 0,
    }
}

/// A split of the cache write that does not add up to what was reported.
pub open spec fn anthropic_discrepancy(u: AnthropicUsage) -> Option<NormalizeError> {
    match u.cache_creation {
        Some(c) => {
            let split_sum = clamp_u64(
                (or_zero(c.ephemeral_5m_input_tokens) + or_zero(
                    c.ephemeral_1h_input_tokens,
                )) as nat,
            );
            let reported = or_zero(u.cache_creation_input_tokens);
            if split_sum != reported {
                Some(NormalizeError::CacheTtlSplitMismatch { split_sum, reported })
            } else {
                None
            }
        },
        None => None,
    }
}

/// OpenAI's buckets, with the cached part taken out of the input; or which
/// subset was larger than what it is a part of.
pub open spec fn openai_bands(u: OpenAiUsage) -> Result<TokenBands, NormalizeError> {
    let input = or_zero(u.input_tokens);
    let cached = or_zero(u.cached_input_tokens);
    let output = or_zero(u.output_tokens);
    let reasoning = or_zero(u.reasoning_output_tokens);
    if cached > input {
        Err(NormalizeError::CachedExceedsInput { input, cached })
    } else if reasoning > output {
        Err(NormalizeError::ReasoningExceedsOutput { output, reasoning })
    } else {
        Ok(
            TokenBands {
                input_fresh: (input - cached) as u64,
                cache_read: cached,
                cache_write_5m: 0,
                cache_write_1h: 0,
                cache_write_unspecified: or_zero(u.cache_write_input_tokens),
                output_total: output,
                reasoning: u.reasoning_output_tokens,
                unclassified: 0,
            },
        )
    }
}

/// The provider's own total where it differs from input plus output.
pub open spec fn openai_total_discrepancy(u: OpenAiUsage) -> Option<NormalizeError> {
    match u.total_tokens {
        Some(reported) => {
            let computed = clamp_u64((or_zero(u.input_tokens) + or_zero(u.output_tokens)) as nat);
            if computed != reported {
                Some(NormalizeError::ProviderTotalMismatch { computed, reported })
            } else {
                None
            }
        },
        None => None,
    }
}

impl Default for TokenUsage {
    fn default() -> (u: Self)
        ensures
            u@ == no_tokens(),
    {
        TokenUsage { bands: TokenBands::default() }
    }
}

impl TokenUsage {
    /// Normalize Anthropic usage, refusing a split of the cache write that does
    /// not add up. Reasoning is never reported.
    pub fn from_anthropic(u: &AnthropicUsage) -> (r: Result<Self, NormalizeError>)
        ensures
            match r {
                Ok(t) => anthropic_discrepancy(*u).is_none() && t@ == anthropic_bands(*u),
                Err(e) => anthropic_discrepancy(*u) == Some(e),
            },
    {
        let n = Self::read_anthropic(u);
        match n.discrepancy {
            Some(e) => Err(e),
            None => Ok(n.usage),
        }
    }

    /// Normalize Anthropic usage and keep its tokens even where the provider
    /// contradicted itself: the split is what the write is priced by, so its
    /// tokens count, and the contradiction is handed back beside them.
    pub fn read_anthropic(u: &AnthropicUsage) -> (n: NormalizedUsage)
        ensures
            n.usage@ == anthropic_bands(*u),
            n.discrepancy == anthropic_discrepancy(*u),
    {
        let reported: u64 = u.cache_creation_input_tokens.unwrap_or(0);
        let mut discrepancy: Option<NormalizeError> = None;
        let (w5, w1, unspecified): (u64, u64, u64) = match u.cache_creation {
            Some(c) => {
                let five: u64 = c.ephemeral_5m_input_tokens.unwrap_or(0);
                let hour: u64 = c.ephemeral_1h_input_tokens.unwrap_or(0);
                let split_sum: u64 = five.saturating_add(hour);
                if split_sum != reported {
                    discrepancy =
                    Some(NormalizeError::CacheTtlSplitMismatch { split_sum, reported });
                }
                (five, hour, 0)
            },
            None => (0, 0, reported),
        };
        NormalizedUsage {
            usage: TokenUsage {
                bands: TokenBands {
                    input_fresh: u.input_tokens.unwrap_or(0),
                    cache_read: u.cache_read_input_tokens.unwrap_or(0),
                    cache_write_5m: w5,
                    cache_write_1h: w1,
                    cache_write_unspecified: unspecified,
                    output_total: u.output_tokens.unwrap_or(0),
                    reasoning: None,
                    unclassified: 0,
                },
            },
            discrepancy,
        }
    }

    /// Normalize OpenAI-shaped usage: the cached portion is subtracted out of
    /// the input to reach a disjoint partition. Reasoning that was not reported
    /// stays unreported.
    pub fn from_openai(u: &OpenAiUsage) -> (r: Result<Self, NormalizeError>)
        ensures
            match r {
                Ok(t) => openai_bands(*u) == Ok::<TokenBands, NormalizeError>(t@),
                Err(e) => openai_bands(*u) == Err::<TokenBands, NormalizeError>(e),
            },
    {
        let input: u64 = u.input_tokens.unwrap_or(0);
        let cached: u64 = u.cached_input_tokens.unwrap_or(0);
        let output: u64 = u.output_tokens.unwrap_or(0);
        let reasoning: u64 = u.reasoning_output_tokens.unwrap_or(0);
        let input_fresh: u64 = match input.checked_sub(cached) {
            Some(n) => n,
            None => {
                return Err(NormalizeError::CachedExceedsInput { input, cached });
            },
        };
        if reasoning > output {
            return Err(NormalizeError::ReasoningExceedsOutput { output, reasoning });
        }
        Ok(
            TokenUsage {
                bands: TokenBands {
                    input_fresh,
                    cache_read: cached,
                    cache_write_5m: 0,
                    cache_write_1h: 0,
                    cache_write_unspecified: u.cache_write_input_tokens.unwrap_or(0),
                    output_total: output,
                    reasoning: u.reasoning_output_tokens,
                    unclassified: 0,
                },
            },
        )
    }

    /// Check the provider's own arithmetic without rejecting the row.
    pub fn check_openai_total(u: &OpenAiUsage) -> (r: Option<NormalizeError>)
        ensures
            r == openai_total_discrepancy(*u),
    {
        match u.total_tokens {
            Some(reported) => {
                let computed: u64 = u.input_tokens.unwrap_or(0).saturating_add(
                    u.output_tokens.unwrap_or(0),
                );
                if computed != reported {
                    Some(NormalizeError::ProviderTotalMismatch { computed, reported })
                } else {
                    None
                }
            },
            None => None,
        }
    }

    /// Usage whose buckets are known to be disjoint already, such as one that
    /// was stored.
    pub fn from_bands(bands: TokenBands) -> (u: Self)
        ensures
            u@ == bands,
    {
        TokenUsage { bands }
    }

    /// Tokens of which only the total is known.
    pub fn unclassified_only(total: u64) -> (u: Self)
        ensures
            u@ == (TokenBands { unclassified: total, ..no_tokens() }),
    {
        TokenUsage {
            bands: TokenBands {
                input_fresh: 0,
                cache_read: 0,
                cache_write_5m: 0,
                cache_write_1h: 0,
                cache_write_unspecified: 0,
                output_total: 0,
                reasoning: None,
                unclassified: total,
            },
        }
    }

    pub fn input_fresh(&self) -> (n: u64)
        ensures
            n == self@.input_fresh,
    {
        self.bands.input_fresh
    }

    pub fn cache_read(&self) -> (n: u64)
        ensures
            n == self@.cache_read,
    {
        self.bands.cache_read
    }

    pub fn cache_write_5m(&self) -> (n: u64)
        ensures
            n == self@.cache_write_5m,
    {
        self.bands.cache_write_5m
    }

    pub fn cache_write_1h(&self) -> (n: u64)
        ensures
            n == self@.cache_write_1h,
    {
        self.bands.cache_write_1h
    }

    pub fn cache_write_unspecified(&self) -> (n: u64)
        ensures
            n == self@.cache_write_unspecified,
    {
        self.bands.cache_write_unspecified
    }

    pub fn output_total(&self) -> (n: u64)
        ensures
            n == self@.output_total,
    {
        self.bands.output_total
    }

    pub fn reasoning(&self) -> (n: Option<u64>)
        ensures
            n == self@.reasoning,
    {
        self.bands.reasoning
    }

    pub fn unclassified(&self) -> (n: u64)
        ensures
            n == self@.unclassified,
    {
        self.bands.unclassified
    }

    pub fn cache_write_total(&self) -> (n: u64)
        ensures
            n == clamp_u64(self@.writes()),
    {
        self.bands.cache_write_total()
    }

    /// The only input quantity that can be compared across providers.
    pub fn input_side_total(&self) -> (n: u64)
        ensures
            n == clamp_u64(self@.input_side()),
    {
        self.bands.input_side_total()
    }

    /// Every token, cache writes included: unlike the provider's own total,
    /// which leaves them out although they were billed.
    pub fn grand_total(&self) -> (n: u64)
        ensures
            n == clamp_u64(self@.total()),
    {
        self.bands.grand_total()
    }

    /// Component-wise addition, for aggregating a task.
    pub fn merge_add(self, other: Self) -> (m: Self)
        ensures
            m@ == bands_sum(self@, other@),
    {
        TokenUsage { bands: self.bands.merge_add(other.bands) }
    }

    /// Component-wise maximum, for copies of one response.
    pub fn merge_max(self, other: Self) -> (m: Self)
        ensures
            m@ == bands_max(self@, other@),
    {
        TokenUsage { bands: self.bands.merge_max(other.bands) }
    }
}

impl From<TokenUsage> for TokenBands {
    fn from(u: TokenUsage) -> (b: Self) {
        u.bands
    }
}

impl FromSpecImpl<TokenUsage> for TokenBands {
    open spec fn obeys_from_spec() -> bool {
        true
    }

    open spec fn from_spec(u: TokenUsage) -> Self {
        u@
    }
}

/// Usage is determined by its buckets.
pub proof fn law_usage_is_its_buckets(a: TokenUsage, b: TokenUsage)
    requires
        a@ == b@,
    ensures
        a == b,
{
}

/// Normalized OpenAI usage is a partition: fresh and cached input add up to the
/// provider's input, reasoning stays inside output and unreported where it was
/// not reported, and the total is the provider's input and output plus the cache
/// writes that its own total leaves out.
pub proof fn law_openai_partition(u: OpenAiUsage, b: TokenBands)
    requires
        openai_bands(u) == Ok::<TokenBands, NormalizeError>(b),
    ensures
        b.input_fresh + b.cache_read == or_zero(u.input_tokens),
        b.input_side() == or_zero(u.input_tokens) + or_zero(u.cache_write_input_tokens),
        b.output_total == or_zero(u.output_tokens),
        b.reasoning == u.reasoning_output_tokens,
        b.reasoning.is_some() ==> b.reasoning.unwrap() <= b.output_total,
        b.total() == or_zero(u.input_tokens) + or_zero(u.output_tokens) + or_zero(
            u.cache_write_input_tokens,
        ),
{
}

/// Normalized Anthropic usage adds its disjoint buckets without arithmetic on
/// any of them, keeps every written token, and never reports reasoning.
pub proof fn law_anthropic_partition(u: AnthropicUsage)
    requires
        anthropic_discrepancy(u).is_none(),
        anthropic_bands(u).writes() <= u64::MAX,
    ensures
        anthropic_bands(u).writes() == or_zero(u.cache_creation_input_tokens),
        anthropic_bands(u).input_side() == or_zero(u.input_tokens) + or_zero(
            u.cache_read_input_tokens,
        ) + or_zero(u.cache_creation_input_tokens),
        anthropic_bands(u).total() == anthropic_bands(u).input_side() + or_zero(u.output_tokens),
        anthropic_bands(u).reasoning.is_none(),
{
}

/// OpenAI usage is accepted exactly where what is cached is part of the input
/// and what is reasoning part of the output; its buckets are the provider's
/// counts under the same names, with the cached input taken out of the fresh.
pub proof fn law_openai_buckets_are_the_providers_counts(u: OpenAiUsage)
    ensures
        openai_bands(u) is Ok <==> or_zero(u.cached_input_tokens) <= or_zero(u.input_tokens)
            && or_zero(u.reasoning_output_tokens) <= or_zero(u.output_tokens),
        or_zero(u.cached_input_tokens) > or_zero(u.input_tokens) ==> openai_bands(u) == Err::<
            TokenBands,
            NormalizeError,
        >(
            NormalizeError::CachedExceedsInput {
                input: or_zero(u.input_tokens),
                cached: or_zero(u.cached_input_tokens),
            },
        ),
        or_zero(u.cached_input_tokens) <= or_zero(u.input_tokens) && or_zero(
            u.reasoning_output_tokens,
        ) > or_zero(u.output_tokens) ==> openai_bands(u) == Err::<TokenBands, NormalizeError>(
            NormalizeError::ReasoningExceedsOutput {
                output: or_zero(u.output_tokens),
                reasoning: or_zero(u.reasoning_output_tokens),
            },
        ),
        openai_bands(u) is Ok ==> {
            let b = openai_bands(u)->Ok_0;
            &&& b.cache_read == or_zero(u.cached_input_tokens)
            &&& b.input_fresh + b.cache_read == or_zero(u.input_tokens)
            &&& b.output_total == or_zero(u.output_tokens)
            &&& b.reasoning == u.reasoning_output_tokens
            &&& b.cache_write_unspecified == or_zero(u.cache_write_input_tokens)
            &&& b.cache_write_5m == 0 && b.cache_write_1h == 0 && b.unclassified == 0
        },
{
}

/// A provider's total is wrong exactly where it is not input plus output, and
/// then both numbers are told.
pub proof fn law_a_wrong_total_is_told(u: OpenAiUsage, total: u64)
    requires
        u.total_tokens == Some(total),
        or_zero(u.input_tokens) + or_zero(u.output_tokens) <= u64::MAX,
    ensures
        or_zero(u.input_tokens) + or_zero(u.output_tokens) == total
            ==> openai_total_discrepancy(u).is_none(),
        or_zero(u.input_tokens) + or_zero(u.output_tokens) != total ==> openai_total_discrepancy(u)
            == Some(
            NormalizeError::ProviderTotalMismatch {
                computed: (or_zero(u.input_tokens) + or_zero(u.output_tokens)) as u64,
                reported: total,
            },
        ),
{
}

/// Anthropic's counts go into the buckets of the same names. Cache writes are
/// told apart by time to live where the provider does, and stay undivided where
/// it does not.
pub proof fn law_anthropic_buckets_are_the_providers_counts(u: AnthropicUsage)
    ensures
        anthropic_bands(u).input_fresh == or_zero(u.input_tokens),
        anthropic_bands(u).cache_read == or_zero(u.cache_read_input_tokens),
        anthropic_bands(u).output_total == or_zero(u.output_tokens),
        anthropic_bands(u).reasoning.is_none(),
        anthropic_bands(u).unclassified == 0,
        u.cache_creation.is_some() ==> anthropic_bands(u).cache_write_5m == or_zero(
            u.cache_creation.unwrap().ephemeral_5m_input_tokens,
        ) && anthropic_bands(u).cache_write_1h == or_zero(
            u.cache_creation.unwrap().ephemeral_1h_input_tokens,
        ) && anthropic_bands(u).cache_write_unspecified == 0,
        u.cache_creation.is_none() ==> anthropic_bands(u).cache_write_unspecified == or_zero(
            u.cache_creation_input_tokens,
        ) && anthropic_bands(u).cache_write_5m == 0 && anthropic_bands(u).cache_write_1h == 0,
{
}

/// A split of a cache write is contradictory exactly where it does not add up to
/// the write that was reported, and then both numbers are told.
pub proof fn law_a_wrong_split_is_told(u: AnthropicUsage)
    ensures
        u.cache_creation.is_none() ==> anthropic_discrepancy(u).is_none(),
        u.cache_creation.is_some() ==> {
            let sum = or_zero(u.cache_creation.unwrap().ephemeral_5m_input_tokens) + or_zero(
                u.cache_creation.unwrap().ephemeral_1h_input_tokens,
            );
            sum <= u64::MAX ==> (sum == or_zero(u.cache_creation_input_tokens)
                ==> anthropic_discrepancy(u).is_none()) && (sum != or_zero(
                u.cache_creation_input_tokens,
            ) ==> anthropic_discrepancy(u) == Some(
                NormalizeError::CacheTtlSplitMismatch {
                    split_sum: sum as u64,
                    reported: or_zero(u.cache_creation_input_tokens),
                },
            ))
        },
{
}

/// A contradiction is told with both of its numbers, each in its own place.
pub proof fn law_a_contradiction_is_told_with_its_numbers(whole: u64, part: u64)
    ensures
        normalize_message(NormalizeError::CachedExceedsInput { input: whole, cached: part })
            == "cached_input_tokens ("@ + dec(part as nat) + ") exceeds input_tokens ("@ + dec(
            whole as nat,
        ) + "); OpenAI semantics require cached to be a subset"@,
        normalize_message(
            NormalizeError::ReasoningExceedsOutput { output: whole, reasoning: part },
        ) == "reasoning_output_tokens ("@ + dec(part as nat) + ") exceeds output_tokens ("@ + dec(
            whole as nat,
        ) + "); reasoning must be a subset of output"@,
        normalize_message(
            NormalizeError::CacheTtlSplitMismatch { split_sum: part, reported: whole },
        ) == "cache_creation TTL split ("@ + dec(part as nat)
            + ") does not equal cache_creation_input_tokens ("@ + dec(whole as nat) + ")"@,
        normalize_message(
            NormalizeError::ProviderTotalMismatch { computed: part, reported: whole },
        ) == "provider total_tokens ("@ + dec(whole as nat)
            + ") does not equal input + output ("@ + dec(part as nat) + ")"@,
{
}

} // verus!
