//! Normalized token usage.
//!
//! Providers publish a field called `input_tokens` and mean different things by
//! it: for Anthropic it excludes cache reads and writes, for OpenAI the cached
//! part is a subset of it. The type below is therefore a disjoint partition:
//! there is no field called `input_tokens`, so there is nothing to naively add
//! `cache_read` to.
use vstd::prelude::*;

use crate::measurement::clamp_u64;

verus! {

/// Token counts in mutually exclusive buckets.
#[derive(Debug, Clone, Copy, PartialEq, Eq, Structural)]
pub struct TokenBands {
    /// Fresh input, billed at the full input rate.
    pub input_fresh: u64,
    /// Cache hits, billed at a discount.
    pub cache_read: u64,
    /// Cache writes with a 5-minute time to live.
    pub cache_write_5m: u64,
    /// Cache writes with a 1-hour time to live, priced differently.
    pub cache_write_1h: u64,
    /// A cache write whose time to live the provider did not break down.
    pub cache_write_unspecified: u64,
    /// All output tokens, reasoning included.
    pub output_total: u64,
    /// Reasoning tokens, a subset of `output_total`. `None` means that the
    /// provider does not report them, which is not a zero.
    pub reasoning: Option<u64>,
    /// Tokens of which the provider gave a total without saying whether they
    /// were input or output. Counted, attributed to neither side.
    pub unclassified: u64,
}

impl Default for TokenBands {
    fn default() -> (b: Self)
        ensures
            b == no_tokens(),
    {
        TokenBands {
            input_fresh: 0,
            cache_read: 0,
            cache_write_5m: 0,
            cache_write_1h: 0,
            cache_write_unspecified: 0,
            output_total: 0,
            reasoning: None,
            unclassified: 0,
        }
    }
}

/// No tokens in any bucket, and reasoning not reported.
pub open spec fn no_tokens() -> TokenBands {
    TokenBands {
        input_fresh: 0,
        cache_read: 0,
        cache_write_5m: 0,
        cache_write_1h: 0,
        cache_write_unspecified: 0,
        output_total: 0,
        reasoning: None,
        unclassified: 0,
    }
}

/// The sum of two counts, or the largest count where it does not fit.
pub open spec fn plus(a: u64, b: u64) -> u64 {
    clamp_u64((a + b) as nat)
}

/// The larger of two counts.
pub open spec fn larger(a: u64, b: u64) -> u64 {
    if a >= b {
        a
    } else {
        b
    }
}

/// Component-wise sum. Reasoning stays unreported only where neither side
/// reports it.
pub open spec fn bands_sum(a: TokenBands, b: TokenBands) -> TokenBands {
    TokenBands {
        input_fresh: plus(a.input_fresh, b.input_fresh),
        cache_read: plus(a.cache_read, b.cache_read),
        cache_write_5m: plus(a.cache_write_5m, b.cache_write_5m),
        cache_write_1h: plus(a.cache_write_1h, b.cache_write_1h),
        cache_write_unspecified: plus(a.cache_write_unspecified, b.cache_write_unspecified),
        output_total: plus(a.output_total, b.output_total),
        reasoning: match (a.reasoning, b.reasoning) {
            (None, None) => None,
            (Some(x), None) => Some(x),
            (None, Some(y)) => Some(y),
            (Some(x), Some(y)) => Some(plus(x, y)),
        },
        unclassified: plus(a.unclassified, b.unclassified),
    }
}

/// Component-wise maximum; a reported reasoning count wins over an unreported.
pub open spec fn bands_max(a: TokenBands, b: TokenBands) -> TokenBands {
    TokenBands {
        input_fresh: larger(a.input_fresh, b.input_fresh),
        cache_read: larger(a.cache_read, b.cache_read),
        cache_write_5m: larger(a.cache_write_5m, b.cache_write_5m),
        cache_write_1h: larger(a.cache_write_1h, b.cache_write_1h),
        cache_write_unspecified: larger(a.cache_write_unspecified, b.cache_write_unspecified),
        output_total: larger(a.output_total, b.output_total),
        reasoning: match (a.reasoning, b.reasoning) {
            (Some(x), Some(y)) => Some(larger(x, y)),
            (Some(x), None) => Some(x),
            (None, y) => y,
        },
        unclassified: larger(a.unclassified, b.unclassified),
    }
}

/// The larger of two counts.
pub(crate) fn max_u64(a: u64, b: u64) -> (m: u64)
    ensures
        m == larger(a, b),
{
    if a >= b {
        a
    } else {
        b
    }
}

impl TokenBands {
    /// All cache writes.
    pub open spec fn writes(self) -> nat {
        (self.cache_write_5m + self.cache_write_1h + self.cache_write_unspecified) as nat
    }

    /// Everything on the input side.
    pub open spec fn input_side(self) -> nat {
        (self.input_fresh + self.cache_read + self.writes()) as nat
    }

    /// Everything.
    pub open spec fn total(self) -> nat {
        (self.input_side() + self.output_total + self.unclassified) as nat
    }

    pub fn cache_write_total(&self) -> (n: u64)
        ensures
            n == clamp_u64(self.writes()),
    {
        self.cache_write_5m.saturating_add(self.cache_write_1h).saturating_add(
            self.cache_write_unspecified,
        )
    }

    /// The only input quantity that can be compared across providers.
    pub fn input_side_total(&self) -> (n: u64)
        ensures
            n == clamp_u64(self.input_side()),
    {
        self.input_fresh.saturating_add(self.cache_read).saturating_add(self.cache_write_total())
    }

    pub fn grand_total(&self) -> (n: u64)
        ensures
            n == clamp_u64(self.total()),
    {
        self.input_side_total().saturating_add(self.output_total).saturating_add(
            self.unclassified,
        )
    }

    /// How many of how many input-side tokens were cache hits; `None` where
    /// there was no input at all, rather than a misleading zero.
    pub fn cache_hit_ratio(&self) -> (r: Option<(u64, u64)>)
        ensures
            r == if self.input_side() == 0 {
                None
            } else {
                Some((self.cache_read, clamp_u64(self.input_side())))
            },
            r == hit_ratio(*self),
    {
        let all: u64 = self.input_side_total();
        if all == 0 {
            return None;
        }
        Some((self.cache_read, all))
    }

    /// Component-wise addition for aggregation.
    ///
    /// Where only one side reports reasoning the result is a floor, and the
    /// caller is responsible for marking the aggregate partial.
    pub fn merge_add(self, other: Self) -> (m: Self)
        ensures
            m == bands_sum(self, other),
    {
        TokenBands {
            input_fresh: self.input_fresh.saturating_add(other.input_fresh),
            cache_read: self.cache_read.saturating_add(other.cache_read),
            cache_write_5m: self.cache_write_5m.saturating_add(other.cache_write_5m),
            cache_write_1h: self.cache_write_1h.saturating_add(other.cache_write_1h),
            cache_write_unspecified: self.cache_write_unspecified.saturating_add(
                other.cache_write_unspecified,
            ),
            output_total: self.output_total.saturating_add(other.output_total),
            reasoning: match (self.reasoning, other.reasoning) {
                (None, None) => None,
                (a, b) => Some(a.unwrap_or(0).saturating_add(b.unwrap_or(0))),
            },
            unclassified: self.unclassified.saturating_add(other.unclassified),
        }
    }

    /// Component-wise maximum.
    ///
    /// One response may be written several times, each copy repeating the whole
    /// usage object; where the copies differ the values only grow. The maximum
    /// is therefore correct in whatever order the copies are read.
    pub fn merge_max(self, other: Self) -> (m: Self)
        ensures
            m == bands_max(self, other),
    {
        TokenBands {
            input_fresh: max_u64(self.input_fresh, other.input_fresh),
            cache_read: max_u64(self.cache_read, other.cache_read),
            cache_write_5m: max_u64(self.cache_write_5m, other.cache_write_5m),
            cache_write_1h: max_u64(self.cache_write_1h, other.cache_write_1h),
            cache_write_unspecified: max_u64(
                self.cache_write_unspecified,
                other.cache_write_unspecified,
            ),
            output_total: max_u64(self.output_total, other.output_total),
            reasoning: match (self.reasoning, other.reasoning) {
                (Some(a), Some(b)) => Some(max_u64(a, b)),
                (Some(a), None) => Some(a),
                (None, b) => b,
            },
            unclassified: max_u64(self.unclassified, other.unclassified),
        }
    }
}

/// Merging copies by maximum gives the same in either order.
pub proof fn law_merge_max_commutes(a: TokenBands, b: TokenBands)
    ensures
        bands_max(a, b) == bands_max(b, a),
{
}

/// Merging copies by maximum gives the same in whatever grouping.
pub proof fn law_merge_max_associates(a: TokenBands, b: TokenBands, c: TokenBands)
    ensures
        bands_max(bands_max(a, b), c) == bands_max(a, bands_max(b, c)),
{
}

/// Merging a copy into itself, or again into what already holds it, changes
/// nothing: reading a file twice converges.
pub proof fn law_merge_max_idempotent(a: TokenBands, b: TokenBands)
    ensures
        bands_max(a, a) == a,
        bands_max(bands_max(a, b), b) == bands_max(a, b),
        bands_max(no_tokens(), a) == a,
{
}

/// Merging by maximum never lowers a count and never forgets reasoning.
pub proof fn law_merge_max_never_lowers(a: TokenBands, b: TokenBands)
    ensures
        bands_max(a, b).input_fresh >= a.input_fresh,
        bands_max(a, b).cache_read >= a.cache_read,
        bands_max(a, b).cache_write_5m >= a.cache_write_5m,
        bands_max(a, b).cache_write_1h >= a.cache_write_1h,
        bands_max(a, b).cache_write_unspecified >= a.cache_write_unspecified,
        bands_max(a, b).output_total >= a.output_total,
        bands_max(a, b).unclassified >= a.unclassified,
        a.reasoning.is_some() ==> bands_max(a, b).reasoning.is_some()
            && bands_max(a, b).reasoning.unwrap() >= a.reasoning.unwrap(),
{
}

/// A sum of counts reports reasoning exactly where one of them does: a sum of
/// unknowns is not zero.
pub proof fn law_merge_add_keeps_reasoning_unknown(a: TokenBands, b: TokenBands)
    ensures
        bands_sum(a, b).reasoning.is_none() <==> a.reasoning.is_none() && b.reasoning.is_none(),
{
}

/// Adding up is independent of order and grouping, and the total of a sum is
/// the sum of the totals.
pub proof fn law_merge_add_is_addition(a: TokenBands, b: TokenBands, c: TokenBands)
    ensures
        bands_sum(a, b) == bands_sum(b, a),
        bands_sum(bands_sum(a, b), c) == bands_sum(a, bands_sum(b, c)),
        bands_sum(no_tokens(), a) == a,
        a.total() + b.total() <= u64::MAX ==> bands_sum(a, b).total() == a.total() + b.total(),
{
}

/// Of two copies, every count that is kept is one of theirs: merging never makes
/// up a count that neither copy holds, and never mixes two buckets.
pub proof fn law_merge_max_keeps_counts_of_the_copies(a: TokenBands, b: TokenBands)
    ensures
        bands_max(a, b).input_fresh == a.input_fresh || bands_max(a, b).input_fresh == b.input_fresh,
        bands_max(a, b).input_fresh >= b.input_fresh,
        bands_max(a, b).cache_read == a.cache_read || bands_max(a, b).cache_read == b.cache_read,
        bands_max(a, b).cache_read >= b.cache_read,
        bands_max(a, b).cache_write_5m == a.cache_write_5m || bands_max(a, b).cache_write_5m == b.cache_write_5m,
        bands_max(a, b).cache_write_5m >= b.cache_write_5m,
        bands_max(a, b).cache_write_1h == a.cache_write_1h || bands_max(a, b).cache_write_1h == b.cache_write_1h,
        bands_max(a, b).cache_write_1h >= b.cache_write_1h,
        bands_max(a, b).cache_write_unspecified == a.cache_write_unspecified || bands_max(a, b).cache_write_unspecified == b.cache_write_unspecified,
        bands_max(a, b).cache_write_unspecified >= b.cache_write_unspecified,
        bands_max(a, b).output_total == a.output_total || bands_max(a, b).output_total == b.output_total,
        bands_max(a, b).output_total >= b.output_total,
        bands_max(a, b).unclassified == a.unclassified || bands_max(a, b).unclassified == b.unclassified,
        bands_max(a, b).unclassified >= b.unclassified,
        bands_max(a, b).reasoning == a.reasoning || bands_max(a, b).reasoning == b.reasoning,
        b.reasoning.is_some() ==> bands_max(a, b).reasoning.is_some()
            && bands_max(a, b).reasoning.unwrap() >= b.reasoning.unwrap(),
{
}

/// A sum holds in each bucket the tokens of both sides, or the largest number
/// where they do not fit; reasoning that one side alone reports is that side's.
pub proof fn law_merge_add_adds_each_bucket(a: TokenBands, b: TokenBands)
    ensures
        a.input_fresh + b.input_fresh <= u64::MAX ==> bands_sum(a, b).input_fresh == a.input_fresh + b.input_fresh,
        a.input_fresh + b.input_fresh > u64::MAX ==> bands_sum(a, b).input_fresh == u64::MAX,
        a.cache_read + b.cache_read <= u64::MAX ==> bands_sum(a, b).cache_read == a.cache_read + b.cache_read,
        a.cache_read + b.cache_read > u64::MAX ==> bands_sum(a, b).cache_read == u64::MAX,
        a.cache_write_5m + b.cache_write_5m <= u64::MAX ==> bands_sum(a, b).cache_write_5m == a.cache_write_5m + b.cache_write_5m,
        a.cache_write_5m + b.cache_write_5m > u64::MAX ==> bands_sum(a, b).cache_write_5m == u64::MAX,
        a.cache_write_1h + b.cache_write_1h <= u64::MAX ==> bands_sum(a, b).cache_write_1h == a.cache_write_1h + b.cache_write_1h,
        a.cache_write_1h + b.cache_write_1h > u64::MAX ==> bands_sum(a, b).cache_write_1h == u64::MAX,
        a.cache_write_unspecified + b.cache_write_unspecified <= u64::MAX ==> bands_sum(a, b).cache_write_unspecified == a.cache_write_unspecified + b.cache_write_unspecified,
        a.cache_write_unspecified + b.cache_write_unspecified > u64::MAX ==> bands_sum(a, b).cache_write_unspecified == u64::MAX,
        a.output_total + b.output_total <= u64::MAX ==> bands_sum(a, b).output_total == a.output_total + b.output_total,
        a.output_total + b.output_total > u64::MAX ==> bands_sum(a, b).output_total == u64::MAX,
        a.unclassified + b.unclassified <= u64::MAX ==> bands_sum(a, b).unclassified == a.unclassified + b.unclassified,
        a.unclassified + b.unclassified > u64::MAX ==> bands_sum(a, b).unclassified == u64::MAX,
        a.reasoning.is_some() && b.reasoning.is_some() && a.reasoning.unwrap()
            + b.reasoning.unwrap() <= u64::MAX ==> bands_sum(a, b).reasoning.is_some()
            && bands_sum(a, b).reasoning.unwrap() == a.reasoning.unwrap() + b.reasoning.unwrap(),
        a.reasoning.is_some() && b.reasoning.is_some() && a.reasoning.unwrap()
            + b.reasoning.unwrap() > u64::MAX ==> bands_sum(a, b).reasoning == Some(u64::MAX),
        b.reasoning.is_none() ==> bands_sum(a, b).reasoning == a.reasoning,
        a.reasoning.is_none() ==> bands_sum(a, b).reasoning == b.reasoning,
{
}

/// Every token counts once: a token more in any bucket is a token more in total,
/// one more on the input side exactly where the bucket is input, and one more
/// cache write exactly where it is one. Reasoning is a part of the output and
/// counts nowhere by itself.
pub proof fn law_every_bucket_counts_once(b: TokenBands, n: u64)
    ensures
        no_tokens().total() == 0,
        no_tokens().input_side() == 0,
        no_tokens().writes() == 0,
        (TokenBands { input_fresh: n, ..b }).total() - b.total() == n - b.input_fresh,
        (TokenBands { input_fresh: n, ..b }).input_side() - b.input_side() == n - b.input_fresh,
        (TokenBands { input_fresh: n, ..b }).writes() - b.writes() == 0,
        (TokenBands { cache_read: n, ..b }).total() - b.total() == n - b.cache_read,
        (TokenBands { cache_read: n, ..b }).input_side() - b.input_side() == n - b.cache_read,
        (TokenBands { cache_read: n, ..b }).writes() - b.writes() == 0,
        (TokenBands { cache_write_5m: n, ..b }).total() - b.total() == n - b.cache_write_5m,
        (TokenBands { cache_write_5m: n, ..b }).input_side() - b.input_side() == n - b.cache_write_5m,
        (TokenBands { cache_write_5m: n, ..b }).writes() - b.writes() == n - b.cache_write_5m,
        (TokenBands { cache_write_1h: n, ..b }).total() - b.total() == n - b.cache_write_1h,
        (TokenBands { cache_write_1h: n, ..b }).input_side() - b.input_side() == n - b.cache_write_1h,
        (TokenBands { cache_write_1h: n, ..b }).writes() - b.writes() == n - b.cache_write_1h,
        (TokenBands { cache_write_unspecified: n, ..b }).total() - b.total() == n - b.cache_write_unspecified,
        (TokenBands { cache_write_unspecified: n, ..b }).input_side() - b.input_side() == n - b.cache_write_unspecified,
        (TokenBands { cache_write_unspecified: n, ..b }).writes() - b.writes() == n - b.cache_write_unspecified,
        (TokenBands { output_total: n, ..b }).total() - b.total() == n - b.output_total,
        (TokenBands { output_total: n, ..b }).input_side() - b.input_side() == 0,
        (TokenBands { output_total: n, ..b }).writes() - b.writes() == 0,
        (TokenBands { unclassified: n, ..b }).total() - b.total() == n - b.unclassified,
        (TokenBands { unclassified: n, ..b }).input_side() - b.input_side() == 0,
        (TokenBands { unclassified: n, ..b }).writes() - b.writes() == 0,
        (TokenBands { reasoning: Some(n), ..b }).total() == b.total(),
        (TokenBands { reasoning: None, ..b }).total() == b.total(),
        (TokenBands { reasoning: Some(n), ..b }).input_side() == b.input_side(),
        (TokenBands { reasoning: None, ..b }).input_side() == b.input_side(),
{
}

/// How many of how many input-side tokens were cache hits.
pub open spec fn hit_ratio(b: TokenBands) -> Option<(u64, u64)> {
    if b.input_side() == 0 {
        None
    } else {
        Some((b.cache_read, clamp_u64(b.input_side())))
    }
}

/// Cache hits are counted against all input, cache writes included, and there is
/// no ratio exactly where there was no input.
pub proof fn law_hits_are_counted_against_all_input(b: TokenBands)
    ensures
        hit_ratio(b).is_none() <==> b.input_fresh == 0 && b.cache_read == 0 && b.cache_write_5m == 0
            && b.cache_write_1h == 0 && b.cache_write_unspecified == 0,
        hit_ratio(b).is_some() ==> hit_ratio(b).unwrap().0 == b.cache_read && hit_ratio(
            b,
        ).unwrap().0 <= hit_ratio(b).unwrap().1,
        hit_ratio(b).is_some() && b.input_fresh + b.cache_read + b.cache_write_5m
            + b.cache_write_1h + b.cache_write_unspecified <= u64::MAX ==> hit_ratio(b).unwrap().1
            == b.input_fresh + b.cache_read + b.cache_write_5m + b.cache_write_1h
            + b.cache_write_unspecified,
{
}

} // verus!
