//! Provider-native usage, captured verbatim.
//!
//! This layer is the audit trail: the provider's own fields, in the provider's
//! own semantics, untouched. Every field is optional, because these are
//! undocumented formats that change without notice.
use vstd::prelude::*;
use vstd::string::StringExecFns;

use crate::json::{json_quoted, quote};
use crate::text::{dec, dec_u64, join, joined, opt_text, texts, Text};

verus! {

/// Anthropic's `usage` object.
///
/// `input_tokens` excludes `cache_creation_input_tokens` and
/// `cache_read_input_tokens`: the three are disjoint.
#[derive(Debug, Clone, Default, PartialEq, Eq)]
pub struct AnthropicUsage {
    pub input_tokens: Option<u64>,
    pub output_tokens: Option<u64>,
    pub cache_creation_input_tokens: Option<u64>,
    pub cache_read_input_tokens: Option<u64>,
    /// Split of the cache write by time to live.
    pub cache_creation: Option<AnthropicCacheCreation>,
    pub server_tool_use: Option<ServerToolUse>,
    pub service_tier: Option<String>,
    pub speed: Option<String>,
    pub inference_geo: Option<String>,
    /// A breakdown of this same message, never an addend.
    pub iterations: Option<Vec<AnthropicIteration>>,
}

#[derive(Debug, Clone, Copy, Default, PartialEq, Eq, Structural)]
pub struct AnthropicCacheCreation {
    pub ephemeral_5m_input_tokens: Option<u64>,
    pub ephemeral_1h_input_tokens: Option<u64>,
}

#[derive(Debug, Clone, Copy, Default, PartialEq, Eq, Structural)]
pub struct ServerToolUse {
    pub web_search_requests: Option<u64>,
    pub web_fetch_requests: Option<u64>,
}

#[derive(Debug, Clone, Copy, Default, PartialEq, Eq, Structural)]
pub struct AnthropicIteration {
    pub input_tokens: Option<u64>,
    pub output_tokens: Option<u64>,
    pub cache_read_input_tokens: Option<u64>,
    pub cache_creation_input_tokens: Option<u64>,
}

/// OpenAI-shaped usage.
///
/// `cached_input_tokens` is a subset of `input_tokens`,
/// `reasoning_output_tokens` is a subset of `output_tokens`, and
/// `total_tokens` is their sum with cache writes excluded.
#[derive(Debug, Clone, Copy, PartialEq, Eq, Structural)]
pub struct OpenAiUsage {
    pub input_tokens: Option<u64>,
    /// Subset of `input_tokens`.
    pub cached_input_tokens: Option<u64>,
    /// Additive, outside `input_tokens`.
    pub cache_write_input_tokens: Option<u64>,
    pub output_tokens: Option<u64>,
    /// Subset of `output_tokens`.
    pub reasoning_output_tokens: Option<u64>,
    /// The provider's own total.
    pub total_tokens: Option<u64>,
}

/// Which provider authored a usage object.
#[derive(Debug, Clone, PartialEq, Eq)]
pub enum NativeUsage {
    Anthropic(AnthropicUsage),
    OpenAi(OpenAiUsage),
}

/// Usage in which nothing is reported.
pub open spec fn nothing_reported() -> OpenAiUsage {
    OpenAiUsage {
        input_tokens: None,
        cached_input_tokens: None,
        cache_write_input_tokens: None,
        output_tokens: None,
        reasoning_output_tokens: None,
        total_tokens: None,
    }
}

impl Default for OpenAiUsage {
    fn default() -> (u: Self)
        ensures
            u == nothing_reported(),
    {
        OpenAiUsage {
            input_tokens: None,
            cached_input_tokens: None,
            cache_write_input_tokens: None,
            output_tokens: None,
            reasoning_output_tokens: None,
            total_tokens: None,
        }
    }
}

/// A count that was not reported, taken as zero where a number is needed.
pub open spec fn or_zero(n: Option<u64>) -> u64 {
    match n {
        Some(v) => v,
        None => 0,
    }
}

/// The advance of one counter: never below zero, unreported where the later
/// reading is, and the whole reading where there was none before.
pub open spec fn advance(now: Option<u64>, before: Option<u64>) -> Option<u64> {
    match (now, before) {
        (Some(a), Some(b)) => Some(
            if a >= b {
                (a - b) as u64
            } else {
                0
            },
        ),
        (Some(a), None) => Some(a),
        (None, _) => None,
    }
}

/// The advance of every counter.
pub open spec fn advance_of(now: OpenAiUsage, before: OpenAiUsage) -> OpenAiUsage {
    OpenAiUsage {
        input_tokens: advance(now.input_tokens, before.input_tokens),
        cached_input_tokens: advance(now.cached_input_tokens, before.cached_input_tokens),
        cache_write_input_tokens: advance(
            now.cache_write_input_tokens,
            before.cache_write_input_tokens,
        ),
        output_tokens: advance(now.output_tokens, before.output_tokens),
        reasoning_output_tokens: advance(
            now.reasoning_output_tokens,
            before.reasoning_output_tokens,
        ),
        total_tokens: advance(now.total_tokens, before.total_tokens),
    }
}

fn minus(a: Option<u64>, b: Option<u64>) -> (r: Option<u64>)
    ensures
        r == advance(a, b),
{
    match (a, b) {
        (Some(a), Some(b)) => Some(a.saturating_sub(b)),
        (Some(a), None) => Some(a),
        (None, _) => None,
    }
}

impl OpenAiUsage {
    /// Component-wise difference, for turning a cumulative counter into a delta.
    ///
    /// Saturating: a counter that appears to go backwards is an anomaly to
    /// record, not a reason to report an astronomical request.
    pub fn saturating_delta(self, previous: Self) -> (d: Self)
        ensures
            d == advance_of(self, previous),
    {
        OpenAiUsage {
            input_tokens: minus(self.input_tokens, previous.input_tokens),
            cached_input_tokens: minus(self.cached_input_tokens, previous.cached_input_tokens),
            cache_write_input_tokens: minus(
                self.cache_write_input_tokens,
                previous.cache_write_input_tokens,
            ),
            output_tokens: minus(self.output_tokens, previous.output_tokens),
            reasoning_output_tokens: minus(
                self.reasoning_output_tokens,
                previous.reasoning_output_tokens,
            ),
            total_tokens: minus(self.total_tokens, previous.total_tokens),
        }
    }

    /// True when every component is zero or unreported, which is how a counter
    /// that did not move presents.
    pub fn is_zero(self) -> (b: bool)
        ensures
            b == reads_zero(self),
            b == (or_zero(self.input_tokens) == 0 && or_zero(self.cached_input_tokens) == 0
                && or_zero(self.cache_write_input_tokens) == 0 && or_zero(self.output_tokens) == 0
                && or_zero(self.reasoning_output_tokens) == 0 && or_zero(self.total_tokens) == 0),
    {
        self.input_tokens.unwrap_or(0) == 0 && self.cached_input_tokens.unwrap_or(0) == 0
            && self.cache_write_input_tokens.unwrap_or(0) == 0 && self.output_tokens.unwrap_or(0)
            == 0 && self.reasoning_output_tokens.unwrap_or(0) == 0
            && self.total_tokens.unwrap_or(0) == 0
    }
}

/// One counter's reading is taken apart rightly: what was there before and what
/// was added since make up the reading. A counter that went backwards has added
/// nothing, one that was not reported has not been measured, and one that was not
/// reported before has added all of its reading.
pub open spec fn takes_apart(now: Option<u64>, before: Option<u64>, added: Option<u64>) -> bool {
    &&& added.is_some() == now.is_some()
    &&& now.is_some() && before.is_some() && before.unwrap() <= now.unwrap() ==> before.unwrap()
        + added.unwrap() == now.unwrap()
    &&& now.is_some() && before.is_some() && before.unwrap() > now.unwrap() ==> added.unwrap() == 0
    &&& now.is_some() && before.is_none() ==> added.unwrap() == now.unwrap()
}

/// The advance of every counter, added to the earlier reading, gives the later
/// one.
pub proof fn law_delta_undoes_the_earlier_reading(now: OpenAiUsage, before: OpenAiUsage)
    ensures
        takes_apart(now.input_tokens, before.input_tokens, advance_of(now, before).input_tokens),
        takes_apart(now.cached_input_tokens, before.cached_input_tokens, advance_of(now, before).cached_input_tokens),
        takes_apart(now.cache_write_input_tokens, before.cache_write_input_tokens, advance_of(now, before).cache_write_input_tokens),
        takes_apart(now.output_tokens, before.output_tokens, advance_of(now, before).output_tokens),
        takes_apart(now.reasoning_output_tokens, before.reasoning_output_tokens, advance_of(now, before).reasoning_output_tokens),
        takes_apart(now.total_tokens, before.total_tokens, advance_of(now, before).total_tokens),
        now.input_tokens.is_some() && before.input_tokens.is_some() && before.input_tokens.unwrap()
            <= now.input_tokens.unwrap() ==> advance_of(now, before).input_tokens.is_some()
            && before.input_tokens.unwrap() + advance_of(now, before).input_tokens.unwrap()
            == now.input_tokens.unwrap(),
        now.cached_input_tokens.is_some() && before.cached_input_tokens.is_some() && before.cached_input_tokens.unwrap()
            <= now.cached_input_tokens.unwrap() ==> advance_of(now, before).cached_input_tokens.is_some()
            && before.cached_input_tokens.unwrap() + advance_of(now, before).cached_input_tokens.unwrap()
            == now.cached_input_tokens.unwrap(),
        now.cache_write_input_tokens.is_some() && before.cache_write_input_tokens.is_some() && before.cache_write_input_tokens.unwrap()
            <= now.cache_write_input_tokens.unwrap() ==> advance_of(now, before).cache_write_input_tokens.is_some()
            && before.cache_write_input_tokens.unwrap() + advance_of(now, before).cache_write_input_tokens.unwrap()
            == now.cache_write_input_tokens.unwrap(),
        now.output_tokens.is_some() && before.output_tokens.is_some() && before.output_tokens.unwrap()
            <= now.output_tokens.unwrap() ==> advance_of(now, before).output_tokens.is_some()
            && before.output_tokens.unwrap() + advance_of(now, before).output_tokens.unwrap()
            == now.output_tokens.unwrap(),
        now.reasoning_output_tokens.is_some() && before.reasoning_output_tokens.is_some() && before.reasoning_output_tokens.unwrap()
            <= now.reasoning_output_tokens.unwrap() ==> advance_of(now, before).reasoning_output_tokens.is_some()
            && before.reasoning_output_tokens.unwrap() + advance_of(now, before).reasoning_output_tokens.unwrap()
            == now.reasoning_output_tokens.unwrap(),
        now.total_tokens.is_some() && before.total_tokens.is_some() && before.total_tokens.unwrap()
            <= now.total_tokens.unwrap() ==> advance_of(now, before).total_tokens.is_some()
            && before.total_tokens.unwrap() + advance_of(now, before).total_tokens.unwrap()
            == now.total_tokens.unwrap(),
{
}

/// Advances add up: what was added from a first reading to a second, and from
/// there to a third, is what was added from the first to the third, in every
/// counter that only grows.
pub proof fn law_deltas_add_up(first: OpenAiUsage, second: OpenAiUsage, third: OpenAiUsage)
    ensures
        first.input_tokens.is_some() && second.input_tokens.is_some() && third.input_tokens.is_some()
            && first.input_tokens.unwrap() <= second.input_tokens.unwrap() <= third.input_tokens.unwrap()
            ==> or_zero(advance_of(second, first).input_tokens) + or_zero(
            advance_of(third, second).input_tokens,
        ) == third.input_tokens.unwrap() - first.input_tokens.unwrap(),
        first.cached_input_tokens.is_some() && second.cached_input_tokens.is_some() && third.cached_input_tokens.is_some()
            && first.cached_input_tokens.unwrap() <= second.cached_input_tokens.unwrap() <= third.cached_input_tokens.unwrap()
            ==> or_zero(advance_of(second, first).cached_input_tokens) + or_zero(
            advance_of(third, second).cached_input_tokens,
        ) == third.cached_input_tokens.unwrap() - first.cached_input_tokens.unwrap(),
        first.cache_write_input_tokens.is_some() && second.cache_write_input_tokens.is_some() && third.cache_write_input_tokens.is_some()
            && first.cache_write_input_tokens.unwrap() <= second.cache_write_input_tokens.unwrap() <= third.cache_write_input_tokens.unwrap()
            ==> or_zero(advance_of(second, first).cache_write_input_tokens) + or_zero(
            advance_of(third, second).cache_write_input_tokens,
        ) == third.cache_write_input_tokens.unwrap() - first.cache_write_input_tokens.unwrap(),
        first.output_tokens.is_some() && second.output_tokens.is_some() && third.output_tokens.is_some()
            && first.output_tokens.unwrap() <= second.output_tokens.unwrap() <= third.output_tokens.unwrap()
            ==> or_zero(advance_of(second, first).output_tokens) + or_zero(
            advance_of(third, second).output_tokens,
        ) == third.output_tokens.unwrap() - first.output_tokens.unwrap(),
        first.reasoning_output_tokens.is_some() && second.reasoning_output_tokens.is_some() && third.reasoning_output_tokens.is_some()
            && first.reasoning_output_tokens.unwrap() <= second.reasoning_output_tokens.unwrap() <= third.reasoning_output_tokens.unwrap()
            ==> or_zero(advance_of(second, first).reasoning_output_tokens) + or_zero(
            advance_of(third, second).reasoning_output_tokens,
        ) == third.reasoning_output_tokens.unwrap() - first.reasoning_output_tokens.unwrap(),
        first.total_tokens.is_some() && second.total_tokens.is_some() && third.total_tokens.is_some()
            && first.total_tokens.unwrap() <= second.total_tokens.unwrap() <= third.total_tokens.unwrap()
            ==> or_zero(advance_of(second, first).total_tokens) + or_zero(
            advance_of(third, second).total_tokens,
        ) == third.total_tokens.unwrap() - first.total_tokens.unwrap(),
{
}

/// A reading has not moved against itself.
pub proof fn law_delta_against_itself_is_zero(u: OpenAiUsage)
    ensures
        or_zero(advance_of(u, u).input_tokens) == 0,
        or_zero(advance_of(u, u).cached_input_tokens) == 0,
        or_zero(advance_of(u, u).cache_write_input_tokens) == 0,
        or_zero(advance_of(u, u).output_tokens) == 0,
        or_zero(advance_of(u, u).reasoning_output_tokens) == 0,
        or_zero(advance_of(u, u).total_tokens) == 0,
{
}

/// A count in JSON: its digits, or `null` where it was not reported.
pub open spec fn json_count(n: Option<u64>) -> Text {
    match n {
        Some(v) => dec(v as nat),
        None => "null"@,
    }
}

/// A count in JSON.
pub(crate) fn count_to_json(n: Option<u64>) -> (s: String)
    ensures
        s@ == json_count(n),
{
    match n {
        Some(v) => dec_u64(v),
        None => "null".to_owned(),
    }
}

/// Usage as a JSON object, every field in order and unreported ones `null`.
pub open spec fn openai_json(u: OpenAiUsage) -> Text {
    "{\"input_tokens\":"@ + json_count(u.input_tokens) + ",\"cached_input_tokens\":"@ + json_count(
        u.cached_input_tokens,
    ) + ",\"cache_write_input_tokens\":"@ + json_count(u.cache_write_input_tokens)
        + ",\"output_tokens\":"@ + json_count(u.output_tokens) + ",\"reasoning_output_tokens\":"@
        + json_count(u.reasoning_output_tokens) + ",\"total_tokens\":"@ + json_count(
        u.total_tokens,
    ) + "}"@
}

impl OpenAiUsage {
    /// The usage as a JSON object.
    pub fn to_json(&self) -> (s: String)
        ensures
            s@ == openai_json(*self),
    {
        let mut s = "{\"input_tokens\":".to_owned();
        s.append(count_to_json(self.input_tokens).as_str());
        s.append(",\"cached_input_tokens\":");
        s.append(count_to_json(self.cached_input_tokens).as_str());
        s.append(",\"cache_write_input_tokens\":");
        s.append(count_to_json(self.cache_write_input_tokens).as_str());
        s.append(",\"output_tokens\":");
        s.append(count_to_json(self.output_tokens).as_str());
        s.append(",\"reasoning_output_tokens\":");
        s.append(count_to_json(self.reasoning_output_tokens).as_str());
        s.append(",\"total_tokens\":");
        s.append(count_to_json(self.total_tokens).as_str());
        s.append("}");
        s
    }
}

/// A text in JSON, or `null` where there is none.
pub open spec fn json_text(o: Option<Text>) -> Text {
    match o {
        Some(t) => json_quoted(t),
        None => "null"@,
    }
}

/// A text in JSON.
pub(crate) fn text_to_json(o: &Option<String>) -> (s: String)
    ensures
        s@ == json_text(opt_text(*o)),
{
    match o {
        Some(t) => quote(t.as_str()),
        None => "null".to_owned(),
    }
}

/// The split of a cache write in JSON.
pub open spec fn cache_creation_json(o: Option<AnthropicCacheCreation>) -> Text {
    match o {
        Some(c) => "{\"ephemeral_5m_input_tokens\":"@ + json_count(c.ephemeral_5m_input_tokens)
            + ",\"ephemeral_1h_input_tokens\":"@ + json_count(c.ephemeral_1h_input_tokens) + "}"@,
        None => "null"@,
    }
}

fn cache_creation_to_json(o: &Option<AnthropicCacheCreation>) -> (s: String)
    ensures
        s@ == cache_creation_json(*o),
{
    match o {
        Some(c) => {
            let mut s = "{\"ephemeral_5m_input_tokens\":".to_owned();
            s.append(count_to_json(c.ephemeral_5m_input_tokens).as_str());
            s.append(",\"ephemeral_1h_input_tokens\":");
            s.append(count_to_json(c.ephemeral_1h_input_tokens).as_str());
            s.append("}");
            s
        },
        None => "null".to_owned(),
    }
}

/// The use of the provider's tools in JSON.
pub open spec fn tool_use_json(o: Option<ServerToolUse>) -> Text {
    match o {
        Some(t) => "{\"web_search_requests\":"@ + json_count(t.web_search_requests)
            + ",\"web_fetch_requests\":"@ + json_count(t.web_fetch_requests) + "}"@,
        None => "null"@,
    }
}

fn tool_use_to_json(o: &Option<ServerToolUse>) -> (s: String)
    ensures
        s@ == tool_use_json(*o),
{
    match o {
        Some(t) => {
            let mut s = "{\"web_search_requests\":".to_owned();
            s.append(count_to_json(t.web_search_requests).as_str());
            s.append(",\"web_fetch_requests\":");
            s.append(count_to_json(t.web_fetch_requests).as_str());
            s.append("}");
            s
        },
        None => "null".to_owned(),
    }
}

/// One part of a message in JSON.
pub open spec fn iteration_json(i: AnthropicIteration) -> Text {
    "{\"input_tokens\":"@ + json_count(i.input_tokens) + ",\"output_tokens\":"@ + json_count(
        i.output_tokens,
    ) + ",\"cache_read_input_tokens\":"@ + json_count(i.cache_read_input_tokens)
        + ",\"cache_creation_input_tokens\":"@ + json_count(i.cache_creation_input_tokens) + "}"@
}

/// The parts of a message in JSON.
pub open spec fn iterations_json(o: Option<Vec<AnthropicIteration>>) -> Text {
    match o {
        Some(v) => "["@ + joined(v@.map_values(|i: AnthropicIteration| iteration_json(i)), ","@)
            + "]"@,
        None => "null"@,
    }
}

fn iteration_to_json(i: &AnthropicIteration) -> (s: String)
    ensures
        s@ == iteration_json(*i),
{
    let mut s = "{\"input_tokens\":".to_owned();
    s.append(count_to_json(i.input_tokens).as_str());
    s.append(",\"output_tokens\":");
    s.append(count_to_json(i.output_tokens).as_str());
    s.append(",\"cache_read_input_tokens\":");
    s.append(count_to_json(i.cache_read_input_tokens).as_str());
    s.append(",\"cache_creation_input_tokens\":");
    s.append(count_to_json(i.cache_creation_input_tokens).as_str());
    s.append("}");
    s
}

fn iterations_to_json(o: &Option<Vec<AnthropicIteration>>) -> (s: String)
    ensures
        s@ == iterations_json(*o),
{
    match o {
        Some(v) => {
            let n: usize = v.len();
            let mut parts: Vec<String> = Vec::new();
            let mut k: usize = 0;
            while k < n
                invariant
                    n == v@.len(),
                    k <= n,
                    parts@.len() == k,
                    forall|j: int| 0 <= j < k ==> (#[trigger] parts@[j])@ == iteration_json(v@[j]),
                decreases n - k,
            {
                parts.push(iteration_to_json(&v[k]));
                k += 1;
            }
            proof {
                assert(texts(parts@) =~= v@.map_values(|i: AnthropicIteration| iteration_json(i)));
            }
            let mut s = "[".to_owned();
            s.append(join(&parts, ",").as_str());
            s.append("]");
            s
        },
        None => "null".to_owned(),
    }
}

/// Usage as a JSON object: every field in order, unreported ones `null`, and
/// nothing else.
pub open spec fn anthropic_json(u: AnthropicUsage) -> Text {
    "{\"input_tokens\":"@ + json_count(u.input_tokens) + ",\"output_tokens\":"@ + json_count(
        u.output_tokens,
    ) + ",\"cache_creation_input_tokens\":"@ + json_count(u.cache_creation_input_tokens)
        + ",\"cache_read_input_tokens\":"@ + json_count(u.cache_read_input_tokens)
        + ",\"cache_creation\":"@ + cache_creation_json(u.cache_creation)
        + ",\"server_tool_use\":"@ + tool_use_json(u.server_tool_use) + ",\"service_tier\":"@
        + json_text(opt_text(u.service_tier)) + ",\"speed\":"@ + json_text(opt_text(u.speed))
        + ",\"inference_geo\":"@ + json_text(opt_text(u.inference_geo)) + ",\"iterations\":"@
        + iterations_json(u.iterations) + "}"@
}

impl AnthropicUsage {
    /// The usage as a JSON object.
    pub fn to_json(&self) -> (s: String)
        ensures
            s@ == anthropic_json(*self),
    {
        let mut s = "{\"input_tokens\":".to_owned();
        s.append(count_to_json(self.input_tokens).as_str());
        s.append(",\"output_tokens\":");
        s.append(count_to_json(self.output_tokens).as_str());
        s.append(",\"cache_creation_input_tokens\":");
        s.append(count_to_json(self.cache_creation_input_tokens).as_str());
        s.append(",\"cache_read_input_tokens\":");
        s.append(count_to_json(self.cache_read_input_tokens).as_str());
        s.append(",\"cache_creation\":");
        s.append(cache_creation_to_json(&self.cache_creation).as_str());
        s.append(",\"server_tool_use\":");
        s.append(tool_use_to_json(&self.server_tool_use).as_str());
        s.append(",\"service_tier\":");
        s.append(text_to_json(&self.service_tier).as_str());
        s.append(",\"speed\":");
        s.append(text_to_json(&self.speed).as_str());
        s.append(",\"inference_geo\":");
        s.append(text_to_json(&self.inference_geo).as_str());
        s.append(",\"iterations\":");
        s.append(iterations_to_json(&self.iterations).as_str());
        s.append("}");
        s
    }
}

/// A field stands in a JSON object under its name, with a value and then the next
/// field or the end.
pub open spec fn holds_field(json: Text, name: Text, value: Text) -> bool {
    exists|before: Text, after: Text|
        json == #[trigger] (before + name + value + after) && after.len() > 0 && (after[0] == ','
            || after[0] == '}')
}

/// Signs, names and values, one after another.
pub open spec fn written(fields: Seq<(Text, Text)>) -> Text
    decreases fields.len(),
{
    if fields.len() == 0 {
        Seq::empty()
    } else {
        written(fields.drop_last()) + fields.last().0 + fields.last().1
    }
}

/// One field more is written behind the others.
pub proof fn written_and_one(fields: Seq<(Text, Text)>, name: Text, value: Text)
    ensures
        written(fields.push((name, value))) == written(fields) + name + value,
{
    assert(fields.push((name, value)).drop_last() =~= fields);
}

/// A field that is written stands under its name.
pub proof fn written_field(fields: Seq<(Text, Text)>, i: int, sign: char, name: Text, more: Text)
    requires
        0 <= i < fields.len(),
        fields[i].0 == seq![sign] + name,
        forall|j: int|
            0 < j < fields.len() ==> (#[trigger] fields[j]).0.len() > 0 && fields[j].0[0] == ',',
        more.len() > 0,
        more[0] == ',' || more[0] == '}',
    ensures
        holds_field(written(fields) + more, name, fields[i].1),
    decreases fields.len(),
{
    let d = fields.drop_last();
    let last = fields.last();
    if i == fields.len() - 1 {
        let before = written(d) + seq![sign];
        assert(written(fields) + more =~= before + name + last.1 + more);
    } else {
        let rest = last.0 + last.1 + more;
        assert(fields[fields.len() - 1].0[0] == ',');
        assert(rest[0] == last.0[0]);
        assert forall|j: int| 0 < j < d.len() implies (#[trigger] d[j]).0.len() > 0 && d[j].0[0]
            == ',' by {
            assert(d[j] == fields[j]);
        }
        written_field(d, i, sign, name, rest);
        assert(written(fields) + more =~= written(d) + rest);
    }
}

/// How an object ends.
pub proof fn end_of_object()
    ensures
        "}"@ == seq!['}'],
{
    reveal_strlit("}");
    assert("}"@ =~= seq!['}']);
}

proof fn open_input_tokens()
    ensures
        "{\"input_tokens\":"@ == seq!['{'] + "\"input_tokens\":"@,
{
    reveal_strlit("{\"input_tokens\":");
    reveal_strlit("\"input_tokens\":");
    assert("{\"input_tokens\":"@ =~= seq!['{'] + "\"input_tokens\":"@);
}

proof fn next_cached_input_tokens()
    ensures
        ",\"cached_input_tokens\":"@ == seq![','] + "\"cached_input_tokens\":"@,
{
    reveal_strlit(",\"cached_input_tokens\":");
    reveal_strlit("\"cached_input_tokens\":");
    assert(",\"cached_input_tokens\":"@ =~= seq![','] + "\"cached_input_tokens\":"@);
}

proof fn next_cache_write_input_tokens()
    ensures
        ",\"cache_write_input_tokens\":"@ == seq![','] + "\"cache_write_input_tokens\":"@,
{
    reveal_strlit(",\"cache_write_input_tokens\":");
    reveal_strlit("\"cache_write_input_tokens\":");
    assert(",\"cache_write_input_tokens\":"@ =~= seq![','] + "\"cache_write_input_tokens\":"@);
}

proof fn next_output_tokens()
    ensures
        ",\"output_tokens\":"@ == seq![','] + "\"output_tokens\":"@,
{
    reveal_strlit(",\"output_tokens\":");
    reveal_strlit("\"output_tokens\":");
    assert(",\"output_tokens\":"@ =~= seq![','] + "\"output_tokens\":"@);
}

proof fn next_reasoning_output_tokens()
    ensures
        ",\"reasoning_output_tokens\":"@ == seq![','] + "\"reasoning_output_tokens\":"@,
{
    reveal_strlit(",\"reasoning_output_tokens\":");
    reveal_strlit("\"reasoning_output_tokens\":");
    assert(",\"reasoning_output_tokens\":"@ =~= seq![','] + "\"reasoning_output_tokens\":"@);
}

proof fn next_total_tokens()
    ensures
        ",\"total_tokens\":"@ == seq![','] + "\"total_tokens\":"@,
{
    reveal_strlit(",\"total_tokens\":");
    reveal_strlit("\"total_tokens\":");
    assert(",\"total_tokens\":"@ =~= seq![','] + "\"total_tokens\":"@);
}

/// Each count is written under its own name, and one that was not reported is
/// written as `null` and not as a number.
pub proof fn law_counts_are_written_under_their_names(u: OpenAiUsage)
    ensures
        u.input_tokens.is_some() ==> holds_field(
            openai_json(u),
            "\"input_tokens\":"@,
            dec(u.input_tokens.unwrap() as nat),
        ),
        u.input_tokens.is_none() ==> holds_field(openai_json(u), "\"input_tokens\":"@, "null"@),
        u.cached_input_tokens.is_some() ==> holds_field(
            openai_json(u),
            "\"cached_input_tokens\":"@,
            dec(u.cached_input_tokens.unwrap() as nat),
        ),
        u.cached_input_tokens.is_none() ==> holds_field(openai_json(u), "\"cached_input_tokens\":"@, "null"@),
        u.cache_write_input_tokens.is_some() ==> holds_field(
            openai_json(u),
            "\"cache_write_input_tokens\":"@,
            dec(u.cache_write_input_tokens.unwrap() as nat),
        ),
        u.cache_write_input_tokens.is_none() ==> holds_field(openai_json(u), "\"cache_write_input_tokens\":"@, "null"@),
        u.output_tokens.is_some() ==> holds_field(
            openai_json(u),
            "\"output_tokens\":"@,
            dec(u.output_tokens.unwrap() as nat),
        ),
        u.output_tokens.is_none() ==> holds_field(openai_json(u), "\"output_tokens\":"@, "null"@),
        u.reasoning_output_tokens.is_some() ==> holds_field(
            openai_json(u),
            "\"reasoning_output_tokens\":"@,
            dec(u.reasoning_output_tokens.unwrap() as nat),
        ),
        u.reasoning_output_tokens.is_none() ==> holds_field(openai_json(u), "\"reasoning_output_tokens\":"@, "null"@),
        u.total_tokens.is_some() ==> holds_field(
            openai_json(u),
            "\"total_tokens\":"@,
            dec(u.total_tokens.unwrap() as nat),
        ),
        u.total_tokens.is_none() ==> holds_field(openai_json(u), "\"total_tokens\":"@, "null"@),
{
    let json = openai_json(u);
    open_input_tokens();
    next_cached_input_tokens();
    next_cache_write_input_tokens();
    next_output_tokens();
    next_reasoning_output_tokens();
    next_total_tokens();
    end_of_object();
    let v0 = json_count(u.input_tokens);
    let v1 = json_count(u.cached_input_tokens);
    let v2 = json_count(u.cache_write_input_tokens);
    let v3 = json_count(u.output_tokens);
    let v4 = json_count(u.reasoning_output_tokens);
    let v5 = json_count(u.total_tokens);
    let f0 = Seq::<(Text, Text)>::empty();
    let f1 = f0.push(("{\"input_tokens\":"@, v0));
    written_and_one(f0, "{\"input_tokens\":"@, v0);
    let f2 = f1.push((",\"cached_input_tokens\":"@, v1));
    written_and_one(f1, ",\"cached_input_tokens\":"@, v1);
    let f3 = f2.push((",\"cache_write_input_tokens\":"@, v2));
    written_and_one(f2, ",\"cache_write_input_tokens\":"@, v2);
    let f4 = f3.push((",\"output_tokens\":"@, v3));
    written_and_one(f3, ",\"output_tokens\":"@, v3);
    let f5 = f4.push((",\"reasoning_output_tokens\":"@, v4));
    written_and_one(f4, ",\"reasoning_output_tokens\":"@, v4);
    let f6 = f5.push((",\"total_tokens\":"@, v5));
    written_and_one(f5, ",\"total_tokens\":"@, v5);
    assert(written(f0) + "{\"input_tokens\":"@ =~= "{\"input_tokens\":"@);
    assert(json == written(f6) + "}"@);
    written_field(f6, 0, '{', "\"input_tokens\":"@, "}"@);
    written_field(f6, 1, ',', "\"cached_input_tokens\":"@, "}"@);
    written_field(f6, 2, ',', "\"cache_write_input_tokens\":"@, "}"@);
    written_field(f6, 3, ',', "\"output_tokens\":"@, "}"@);
    written_field(f6, 4, ',', "\"reasoning_output_tokens\":"@, "}"@);
    written_field(f6, 5, ',', "\"total_tokens\":"@, "}"@);
}

proof fn next_cache_creation_input_tokens()
    ensures
        ",\"cache_creation_input_tokens\":"@ == seq![','] + "\"cache_creation_input_tokens\":"@,
{
    reveal_strlit(",\"cache_creation_input_tokens\":");
    reveal_strlit("\"cache_creation_input_tokens\":");
    assert(",\"cache_creation_input_tokens\":"@ =~= seq![','] + "\"cache_creation_input_tokens\":"@);
}

proof fn next_cache_read_input_tokens()
    ensures
        ",\"cache_read_input_tokens\":"@ == seq![','] + "\"cache_read_input_tokens\":"@,
{
    reveal_strlit(",\"cache_read_input_tokens\":");
    reveal_strlit("\"cache_read_input_tokens\":");
    assert(",\"cache_read_input_tokens\":"@ =~= seq![','] + "\"cache_read_input_tokens\":"@);
}

proof fn next_cache_creation()
    ensures
        ",\"cache_creation\":"@ == seq![','] + "\"cache_creation\":"@,
{
    reveal_strlit(",\"cache_creation\":");
    reveal_strlit("\"cache_creation\":");
    assert(",\"cache_creation\":"@ =~= seq![','] + "\"cache_creation\":"@);
}

proof fn next_server_tool_use()
    ensures
        ",\"server_tool_use\":"@ == seq![','] + "\"server_tool_use\":"@,
{
    reveal_strlit(",\"server_tool_use\":");
    reveal_strlit("\"server_tool_use\":");
    assert(",\"server_tool_use\":"@ =~= seq![','] + "\"server_tool_use\":"@);
}

proof fn next_service_tier()
    ensures
        ",\"service_tier\":"@ == seq![','] + "\"service_tier\":"@,
{
    reveal_strlit(",\"service_tier\":");
    reveal_strlit("\"service_tier\":");
    assert(",\"service_tier\":"@ =~= seq![','] + "\"service_tier\":"@);
}

proof fn next_speed()
    ensures
        ",\"speed\":"@ == seq![','] + "\"speed\":"@,
{
    reveal_strlit(",\"speed\":");
    reveal_strlit("\"speed\":");
    assert(",\"speed\":"@ =~= seq![','] + "\"speed\":"@);
}

proof fn next_inference_geo()
    ensures
        ",\"inference_geo\":"@ == seq![','] + "\"inference_geo\":"@,
{
    reveal_strlit(",\"inference_geo\":");
    reveal_strlit("\"inference_geo\":");
    assert(",\"inference_geo\":"@ =~= seq![','] + "\"inference_geo\":"@);
}

proof fn next_iterations()
    ensures
        ",\"iterations\":"@ == seq![','] + "\"iterations\":"@,
{
    reveal_strlit(",\"iterations\":");
    reveal_strlit("\"iterations\":");
    assert(",\"iterations\":"@ =~= seq![','] + "\"iterations\":"@);
}

/// Each field of the audit trail is written under its own name, and one that was
/// not reported is written as `null`.
pub proof fn law_the_audit_trail_names_every_field(u: AnthropicUsage)
    ensures
        u.input_tokens.is_some() ==> holds_field(
            anthropic_json(u),
            "\"input_tokens\":"@,
            dec(u.input_tokens.unwrap() as nat),
        ),
        u.input_tokens.is_none() ==> holds_field(anthropic_json(u), "\"input_tokens\":"@, "null"@),
        u.output_tokens.is_some() ==> holds_field(
            anthropic_json(u),
            "\"output_tokens\":"@,
            dec(u.output_tokens.unwrap() as nat),
        ),
        u.output_tokens.is_none() ==> holds_field(anthropic_json(u), "\"output_tokens\":"@, "null"@),
        u.cache_creation_input_tokens.is_some() ==> holds_field(
            anthropic_json(u),
            "\"cache_creation_input_tokens\":"@,
            dec(u.cache_creation_input_tokens.unwrap() as nat),
        ),
        u.cache_creation_input_tokens.is_none() ==> holds_field(anthropic_json(u), "\"cache_creation_input_tokens\":"@, "null"@),
        u.cache_read_input_tokens.is_some() ==> holds_field(
            anthropic_json(u),
            "\"cache_read_input_tokens\":"@,
            dec(u.cache_read_input_tokens.unwrap() as nat),
        ),
        u.cache_read_input_tokens.is_none() ==> holds_field(anthropic_json(u), "\"cache_read_input_tokens\":"@, "null"@),
        holds_field(anthropic_json(u), "\"cache_creation\":"@, cache_creation_json(u.cache_creation)),
        u.cache_creation.is_none() ==> holds_field(anthropic_json(u), "\"cache_creation\":"@, "null"@),
        holds_field(anthropic_json(u), "\"server_tool_use\":"@, tool_use_json(u.server_tool_use)),
        u.server_tool_use.is_none() ==> holds_field(anthropic_json(u), "\"server_tool_use\":"@, "null"@),
        u.service_tier.is_some() ==> holds_field(
            anthropic_json(u),
            "\"service_tier\":"@,
            json_quoted(u.service_tier.unwrap()@),
        ),
        u.service_tier.is_none() ==> holds_field(anthropic_json(u), "\"service_tier\":"@, "null"@),
        u.speed.is_some() ==> holds_field(
            anthropic_json(u),
            "\"speed\":"@,
            json_quoted(u.speed.unwrap()@),
        ),
        u.speed.is_none() ==> holds_field(anthropic_json(u), "\"speed\":"@, "null"@),
        u.inference_geo.is_some() ==> holds_field(
            anthropic_json(u),
            "\"inference_geo\":"@,
            json_quoted(u.inference_geo.unwrap()@),
        ),
        u.inference_geo.is_none() ==> holds_field(anthropic_json(u), "\"inference_geo\":"@, "null"@),
        holds_field(anthropic_json(u), "\"iterations\":"@, iterations_json(u.iterations)),
        u.iterations.is_none() ==> holds_field(anthropic_json(u), "\"iterations\":"@, "null"@),
{
    let json = anthropic_json(u);
    open_input_tokens();
    next_output_tokens();
    next_cache_creation_input_tokens();
    next_cache_read_input_tokens();
    next_cache_creation();
    next_server_tool_use();
    next_service_tier();
    next_speed();
    next_inference_geo();
    next_iterations();
    end_of_object();
    let v0 = json_count(u.input_tokens);
    let v1 = json_count(u.output_tokens);
    let v2 = json_count(u.cache_creation_input_tokens);
    let v3 = json_count(u.cache_read_input_tokens);
    let v4 = cache_creation_json(u.cache_creation);
    let v5 = tool_use_json(u.server_tool_use);
    let v6 = json_text(opt_text(u.service_tier));
    let v7 = json_text(opt_text(u.speed));
    let v8 = json_text(opt_text(u.inference_geo));
    let v9 = iterations_json(u.iterations);
    let f0 = Seq::<(Text, Text)>::empty();
    let f1 = f0.push(("{\"input_tokens\":"@, v0));
    written_and_one(f0, "{\"input_tokens\":"@, v0);
    let f2 = f1.push((",\"output_tokens\":"@, v1));
    written_and_one(f1, ",\"output_tokens\":"@, v1);
    let f3 = f2.push((",\"cache_creation_input_tokens\":"@, v2));
    written_and_one(f2, ",\"cache_creation_input_tokens\":"@, v2);
    let f4 = f3.push((",\"cache_read_input_tokens\":"@, v3));
    written_and_one(f3, ",\"cache_read_input_tokens\":"@, v3);
    let f5 = f4.push((",\"cache_creation\":"@, v4));
    written_and_one(f4, ",\"cache_creation\":"@, v4);
    let f6 = f5.push((",\"server_tool_use\":"@, v5));
    written_and_one(f5, ",\"server_tool_use\":"@, v5);
    let f7 = f6.push((",\"service_tier\":"@, v6));
    written_and_one(f6, ",\"service_tier\":"@, v6);
    let f8 = f7.push((",\"speed\":"@, v7));
    written_and_one(f7, ",\"speed\":"@, v7);
    let f9 = f8.push((",\"inference_geo\":"@, v8));
    written_and_one(f8, ",\"inference_geo\":"@, v8);
    let f10 = f9.push((",\"iterations\":"@, v9));
    written_and_one(f9, ",\"iterations\":"@, v9);
    assert(written(f0) + "{\"input_tokens\":"@ =~= "{\"input_tokens\":"@);
    assert(json == written(f10) + "}"@);
    written_field(f10, 0, '{', "\"input_tokens\":"@, "}"@);
    written_field(f10, 1, ',', "\"output_tokens\":"@, "}"@);
    written_field(f10, 2, ',', "\"cache_creation_input_tokens\":"@, "}"@);
    written_field(f10, 3, ',', "\"cache_read_input_tokens\":"@, "}"@);
    written_field(f10, 4, ',', "\"cache_creation\":"@, "}"@);
    written_field(f10, 5, ',', "\"server_tool_use\":"@, "}"@);
    written_field(f10, 6, ',', "\"service_tier\":"@, "}"@);
    written_field(f10, 7, ',', "\"speed\":"@, "}"@);
    written_field(f10, 8, ',', "\"inference_geo\":"@, "}"@);
    written_field(f10, 9, ',', "\"iterations\":"@, "}"@);
}

proof fn open_ephemeral_5m_input_tokens()
    ensures
        "{\"ephemeral_5m_input_tokens\":"@ == seq!['{'] + "\"ephemeral_5m_input_tokens\":"@,
{
    reveal_strlit("{\"ephemeral_5m_input_tokens\":");
    reveal_strlit("\"ephemeral_5m_input_tokens\":");
    assert("{\"ephemeral_5m_input_tokens\":"@ =~= seq!['{'] + "\"ephemeral_5m_input_tokens\":"@);
}

proof fn next_ephemeral_1h_input_tokens()
    ensures
        ",\"ephemeral_1h_input_tokens\":"@ == seq![','] + "\"ephemeral_1h_input_tokens\":"@,
{
    reveal_strlit(",\"ephemeral_1h_input_tokens\":");
    reveal_strlit("\"ephemeral_1h_input_tokens\":");
    assert(",\"ephemeral_1h_input_tokens\":"@ =~= seq![','] + "\"ephemeral_1h_input_tokens\":"@);
}

/// The split of a cache write is written under its own names.
pub proof fn law_the_audit_trail_keeps_the_cache_split(c: AnthropicCacheCreation)
    ensures
        c.ephemeral_5m_input_tokens.is_some() ==> holds_field(
            cache_creation_json(Some(c)),
            "\"ephemeral_5m_input_tokens\":"@,
            dec(c.ephemeral_5m_input_tokens.unwrap() as nat),
        ),
        c.ephemeral_5m_input_tokens.is_none() ==> holds_field(cache_creation_json(Some(c)), "\"ephemeral_5m_input_tokens\":"@, "null"@),
        c.ephemeral_1h_input_tokens.is_some() ==> holds_field(
            cache_creation_json(Some(c)),
            "\"ephemeral_1h_input_tokens\":"@,
            dec(c.ephemeral_1h_input_tokens.unwrap() as nat),
        ),
        c.ephemeral_1h_input_tokens.is_none() ==> holds_field(cache_creation_json(Some(c)), "\"ephemeral_1h_input_tokens\":"@, "null"@),
{
    let json = cache_creation_json(Some(c));
    open_ephemeral_5m_input_tokens();
    next_ephemeral_1h_input_tokens();
    end_of_object();
    let v0 = json_count(c.ephemeral_5m_input_tokens);
    let v1 = json_count(c.ephemeral_1h_input_tokens);
    let f0 = Seq::<(Text, Text)>::empty();
    let f1 = f0.push(("{\"ephemeral_5m_input_tokens\":"@, v0));
    written_and_one(f0, "{\"ephemeral_5m_input_tokens\":"@, v0);
    let f2 = f1.push((",\"ephemeral_1h_input_tokens\":"@, v1));
    written_and_one(f1, ",\"ephemeral_1h_input_tokens\":"@, v1);
    assert(written(f0) + "{\"ephemeral_5m_input_tokens\":"@ =~= "{\"ephemeral_5m_input_tokens\":"@);
    assert(json == written(f2) + "}"@);
    written_field(f2, 0, '{', "\"ephemeral_5m_input_tokens\":"@, "}"@);
    written_field(f2, 1, ',', "\"ephemeral_1h_input_tokens\":"@, "}"@);
}

proof fn open_web_search_requests()
    ensures
        "{\"web_search_requests\":"@ == seq!['{'] + "\"web_search_requests\":"@,
{
    reveal_strlit("{\"web_search_requests\":");
    reveal_strlit("\"web_search_requests\":");
    assert("{\"web_search_requests\":"@ =~= seq!['{'] + "\"web_search_requests\":"@);
}

proof fn next_web_fetch_requests()
    ensures
        ",\"web_fetch_requests\":"@ == seq![','] + "\"web_fetch_requests\":"@,
{
    reveal_strlit(",\"web_fetch_requests\":");
    reveal_strlit("\"web_fetch_requests\":");
    assert(",\"web_fetch_requests\":"@ =~= seq![','] + "\"web_fetch_requests\":"@);
}

/// The use of the provider's tools is written under its own names.
pub proof fn law_the_audit_trail_keeps_tool_use(t: ServerToolUse)
    ensures
        t.web_search_requests.is_some() ==> holds_field(
            tool_use_json(Some(t)),
            "\"web_search_requests\":"@,
            dec(t.web_search_requests.unwrap() as nat),
        ),
        t.web_search_requests.is_none() ==> holds_field(tool_use_json(Some(t)), "\"web_search_requests\":"@, "null"@),
        t.web_fetch_requests.is_some() ==> holds_field(
            tool_use_json(Some(t)),
            "\"web_fetch_requests\":"@,
            dec(t.web_fetch_requests.unwrap() as nat),
        ),
        t.web_fetch_requests.is_none() ==> holds_field(tool_use_json(Some(t)), "\"web_fetch_requests\":"@, "null"@),
{
    let json = tool_use_json(Some(t));
    open_web_search_requests();
    next_web_fetch_requests();
    end_of_object();
    let v0 = json_count(t.web_search_requests);
    let v1 = json_count(t.web_fetch_requests);
    let f0 = Seq::<(Text, Text)>::empty();
    let f1 = f0.push(("{\"web_search_requests\":"@, v0));
    written_and_one(f0, "{\"web_search_requests\":"@, v0);
    let f2 = f1.push((",\"web_fetch_requests\":"@, v1));
    written_and_one(f1, ",\"web_fetch_requests\":"@, v1);
    assert(written(f0) + "{\"web_search_requests\":"@ =~= "{\"web_search_requests\":"@);
    assert(json == written(f2) + "}"@);
    written_field(f2, 0, '{', "\"web_search_requests\":"@, "}"@);
    written_field(f2, 1, ',', "\"web_fetch_requests\":"@, "}"@);
}

/// Each part of a message is written under its own names.
pub proof fn law_the_audit_trail_keeps_each_part(i: AnthropicIteration)
    ensures
        i.input_tokens.is_some() ==> holds_field(
            iteration_json(i),
            "\"input_tokens\":"@,
            dec(i.input_tokens.unwrap() as nat),
        ),
        i.input_tokens.is_none() ==> holds_field(iteration_json(i), "\"input_tokens\":"@, "null"@),
        i.output_tokens.is_some() ==> holds_field(
            iteration_json(i),
            "\"output_tokens\":"@,
            dec(i.output_tokens.unwrap() as nat),
        ),
        i.output_tokens.is_none() ==> holds_field(iteration_json(i), "\"output_tokens\":"@, "null"@),
        i.cache_read_input_tokens.is_some() ==> holds_field(
            iteration_json(i),
            "\"cache_read_input_tokens\":"@,
            dec(i.cache_read_input_tokens.unwrap() as nat),
        ),
        i.cache_read_input_tokens.is_none() ==> holds_field(iteration_json(i), "\"cache_read_input_tokens\":"@, "null"@),
        i.cache_creation_input_tokens.is_some() ==> holds_field(
            iteration_json(i),
            "\"cache_creation_input_tokens\":"@,
            dec(i.cache_creation_input_tokens.unwrap() as nat),
        ),
        i.cache_creation_input_tokens.is_none() ==> holds_field(iteration_json(i), "\"cache_creation_input_tokens\":"@, "null"@),
{
    let json = iteration_json(i);
    open_input_tokens();
    next_output_tokens();
    next_cache_read_input_tokens();
    next_cache_creation_input_tokens();
    end_of_object();
    let v0 = json_count(i.input_tokens);
    let v1 = json_count(i.output_tokens);
    let v2 = json_count(i.cache_read_input_tokens);
    let v3 = json_count(i.cache_creation_input_tokens);
    let f0 = Seq::<(Text, Text)>::empty();
    let f1 = f0.push(("{\"input_tokens\":"@, v0));
    written_and_one(f0, "{\"input_tokens\":"@, v0);
    let f2 = f1.push((",\"output_tokens\":"@, v1));
    written_and_one(f1, ",\"output_tokens\":"@, v1);
    let f3 = f2.push((",\"cache_read_input_tokens\":"@, v2));
    written_and_one(f2, ",\"cache_read_input_tokens\":"@, v2);
    let f4 = f3.push((",\"cache_creation_input_tokens\":"@, v3));
    written_and_one(f3, ",\"cache_creation_input_tokens\":"@, v3);
    assert(written(f0) + "{\"input_tokens\":"@ =~= "{\"input_tokens\":"@);
    assert(json == written(f4) + "}"@);
    written_field(f4, 0, '{', "\"input_tokens\":"@, "}"@);
    written_field(f4, 1, ',', "\"output_tokens\":"@, "}"@);
    written_field(f4, 2, ',', "\"cache_read_input_tokens\":"@, "}"@);
    written_field(f4, 3, ',', "\"cache_creation_input_tokens\":"@, "}"@);
}

/// A count that was reported is taken as it is, and one that was not as none.
pub proof fn law_a_reported_count_is_itself(n: u64)
    ensures
        or_zero(Some(n)) == n,
        or_zero(None) == 0,
{
}

/// Nothing is reported but zeros.
pub open spec fn reads_zero(u: OpenAiUsage) -> bool {
    &&& or_zero(u.input_tokens) == 0
    &&& or_zero(u.cached_input_tokens) == 0
    &&& or_zero(u.cache_write_input_tokens) == 0
    &&& or_zero(u.output_tokens) == 0
    &&& or_zero(u.reasoning_output_tokens) == 0
    &&& or_zero(u.total_tokens) == 0
}

/// A usage is nothing exactly where no count of it is above zero: any one count
/// makes it something, and a counter against itself is nothing.
pub proof fn law_any_count_is_something(u: OpenAiUsage, n: u64)
    requires
        n > 0,
    ensures
        reads_zero(nothing_reported()),
        reads_zero(advance_of(u, u)),
        !reads_zero(OpenAiUsage { input_tokens: Some(n), ..u }),
        !reads_zero(OpenAiUsage { cached_input_tokens: Some(n), ..u }),
        !reads_zero(OpenAiUsage { cache_write_input_tokens: Some(n), ..u }),
        !reads_zero(OpenAiUsage { output_tokens: Some(n), ..u }),
        !reads_zero(OpenAiUsage { reasoning_output_tokens: Some(n), ..u }),
        !reads_zero(OpenAiUsage { total_tokens: Some(n), ..u }),
{
}

} // verus!
