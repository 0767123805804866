//! Turning a cumulative counter into per-request usage.
//!
//! After every turn Codex reports a running total for the session and the most
//! recent call, and neither is right on its own: summing the calls counts an
//! event that is emitted twice twice, and trusting the running total misses
//! calls that were billed but left out of it. The running total decides about
//! ordinary turns, the last call is the cross-check, and their disagreement is
//! what identifies a call that the ledger leaves out.
use vstd::prelude::*;

use crate::measurement::clamp_u64;
use crate::native::{
    advance_of, law_delta_undoes_the_earlier_reading, nothing_reported, or_zero, takes_apart,
    OpenAiUsage,
};

verus! {

/// What one `token_count` event means.
#[derive(Debug, Clone, Copy, PartialEq, Eq, Structural)]
pub enum Reconciled {
    /// An ordinary turn: the advance of the running total.
    Turn { usage: OpenAiUsage },
    /// The identical event again. Contributes nothing.
    Replay,
    /// A call the provider billed but left out of its own running total.
    OffLedger { usage: OpenAiUsage },
    /// The running total moved backwards: a new epoch starts.
    EpochReset { usage: OpenAiUsage, from_total: u64, to_total: u64 },
    /// The event carried no token information at all.
    NoTokenData,
}

/// Per-session reconciliation state.
#[derive(Debug, Clone, Copy, PartialEq, Eq, Structural)]
pub struct Watermark {
    pub cumulative: Option<OpenAiUsage>,
    pub last: Option<OpenAiUsage>,
    /// Incremented whenever the counter is rebased.
    pub epoch: u32,
    /// Running sum of everything emitted.
    pub emitted_total: u64,
}

/// The state before any event.
pub open spec fn fresh_watermark() -> Watermark {
    Watermark { cumulative: None, last: None, epoch: 0, emitted_total: 0 }
}

impl Default for Watermark {
    fn default() -> (w: Self)
        ensures
            w == fresh_watermark(),
    {
        Watermark { cumulative: None, last: None, epoch: 0, emitted_total: 0 }
    }
}

/// The provider's own total, or input plus output where it reports none.
pub open spec fn ledger_total(u: OpenAiUsage) -> u64 {
    match u.total_tokens {
        Some(t) => t,
        None => clamp_u64((or_zero(u.input_tokens) + or_zero(u.output_tokens)) as nat),
    }
}

/// What an event means to a session in a given state.
pub open spec fn meaning(
    w: Watermark,
    cumulative: Option<OpenAiUsage>,
    last: Option<OpenAiUsage>,
) -> Reconciled {
    match (cumulative, w.cumulative) {
        (None, _) => Reconciled::NoTokenData,
        (Some(now), None) => Reconciled::Turn { usage: now },
        (Some(now), Some(before)) => if ledger_total(now) < ledger_total(before) {
            Reconciled::EpochReset {
                usage: match last {
                    Some(l) => l,
                    None => now,
                },
                from_total: ledger_total(before),
                to_total: ledger_total(now),
            }
        } else if ledger_total(now) > ledger_total(before) {
            Reconciled::Turn { usage: advance_of(now, before) }
        } else if last == w.last {
            Reconciled::Replay
        } else {
            Reconciled::OffLedger {
                usage: match last {
                    Some(l) => l,
                    None => nothing_reported(),
                },
            }
        },
    }
}

/// The usage an event contributes.
pub open spec fn contribution(r: Reconciled) -> Option<OpenAiUsage> {
    match r {
        Reconciled::Turn { usage } => Some(usage),
        Reconciled::OffLedger { usage } => Some(usage),
        Reconciled::EpochReset { usage, .. } => Some(usage),
        Reconciled::Replay | Reconciled::NoTokenData => None,
    }
}

/// The state after an event: unchanged unless the event contributes; a call
/// off the ledger leaves the running total where it was.
pub open spec fn advanced(
    w: Watermark,
    cumulative: Option<OpenAiUsage>,
    last: Option<OpenAiUsage>,
) -> Watermark {
    let r = meaning(w, cumulative, last);
    match contribution(r) {
        None => w,
        Some(usage) => Watermark {
            cumulative: if r is OffLedger {
                w.cumulative
            } else {
                cumulative
            },
            last,
            epoch: if r is EpochReset && w.epoch < u32::MAX {
                (w.epoch + 1) as u32
            } else {
                w.epoch
            },
            emitted_total: clamp_u64((w.emitted_total + ledger_total(usage)) as nat),
        },
    }
}

/// A count brought into the range of an `i64`.
pub open spec fn clamp_i64(n: int) -> i64 {
    if n > i64::MAX {
        i64::MAX
    } else if n < i64::MIN {
        i64::MIN
    } else {
        n as i64
    }
}

/// By how much what was emitted exceeds the provider's running total.
pub open spec fn gap(w: Watermark) -> i64 {
    let provider: u64 = match w.cumulative {
        Some(c) => ledger_total(c),
        None => 0,
    };
    clamp_i64(clamp_i64(w.emitted_total as int) - clamp_i64(provider as int))
}

fn total_of(u: &OpenAiUsage) -> (n: u64)
    ensures
        n == ledger_total(*u),
{
    match u.total_tokens {
        Some(t) => t,
        None => u.input_tokens.unwrap_or(0).saturating_add(u.output_tokens.unwrap_or(0)),
    }
}

fn to_i64(n: u64) -> (r: i64)
    ensures
        r == clamp_i64(n as int),
{
    if n <= i64::MAX as u64 {
        n as i64
    } else {
        i64::MAX
    }
}

impl Watermark {
    /// Advance by one event.
    pub fn observe(
        &mut self,
        cumulative: Option<OpenAiUsage>,
        last: Option<OpenAiUsage>,
    ) -> (r: Reconciled)
        ensures
            r == meaning(*old(self), cumulative, last),
            *final(self) == advanced(*old(self), cumulative, last),
    {
        let now = match cumulative {
            Some(c) => c,
            None => {
                return Reconciled::NoTokenData;
            },
        };
        let previous = match self.cumulative {
            Some(p) => p,
            None => {
                self.cumulative = Some(now);
                self.last = last;
                self.emitted_total = self.emitted_total.saturating_add(total_of(&now));
                return Reconciled::Turn { usage: now };
            },
        };
        let now_total: u64 = total_of(&now);
        let then_total: u64 = total_of(&previous);
        if now_total < then_total {
            self.epoch = self.epoch.saturating_add(1);
            self.cumulative = Some(now);
            let emitted = match last {
                Some(l) => l,
                None => now,
            };
            self.last = last;
            self.emitted_total = self.emitted_total.saturating_add(total_of(&emitted));
            return Reconciled::EpochReset {
                usage: emitted,
                from_total: then_total,
                to_total: now_total,
            };
        }
        if now_total == then_total {
            let same = match (last, self.last) {
                (Some(a), Some(b)) => a == b,
                (None, None) => true,
                _ => false,
            };
            if same {
                return Reconciled::Replay;
            }
            let usage = match last {
                Some(l) => l,
                None => OpenAiUsage::default(),
            };
            self.last = last;
            self.emitted_total = self.emitted_total.saturating_add(total_of(&usage));
            return Reconciled::OffLedger { usage };
        }
        let delta = now.saturating_delta(previous);
        self.cumulative = Some(now);
        self.last = last;
        self.emitted_total = self.emitted_total.saturating_add(total_of(&delta));
        Reconciled::Turn { usage: delta }
    }

    /// By how much what was emitted exceeds the provider's own running total.
    ///
    /// Calls off the ledger are counted here and not by the provider, so this
    /// reports the difference rather than asserting equality.
    pub fn reconciliation_gap(&self) -> (g: i64)
        ensures
            g == gap(*self),
    {
        let provider: u64 = match self.cumulative {
            Some(c) => total_of(&c),
            None => 0,
        };
        let emitted: i64 = to_i64(self.emitted_total);
        let ledger: i64 = to_i64(provider);
        emitted - ledger
    }
}

/// One event as it is written: the running total and the last call.
pub type Event = (Option<OpenAiUsage>, Option<OpenAiUsage>);

/// What a session emits over a run of events, in order.
pub open spec fn emissions(w: Watermark, events: Seq<Event>) -> Seq<OpenAiUsage>
    decreases events.len(),
{
    if events.len() == 0 {
        Seq::empty()
    } else {
        let e = events[0];
        let rest = emissions(advanced(w, e.0, e.1), events.drop_first());
        match contribution(meaning(w, e.0, e.1)) {
            Some(usage) => seq![usage] + rest,
            None => rest,
        }
    }
}

/// The state after a run of events.
pub open spec fn after(w: Watermark, events: Seq<Event>) -> Watermark
    decreases events.len(),
{
    if events.len() == 0 {
        w
    } else {
        after(advanced(w, events[0].0, events[0].1), events.drop_first())
    }
}

/// Every event of a run twice in a row.
pub open spec fn doubled(events: Seq<Event>) -> Seq<Event>
    decreases events.len(),
{
    if events.len() == 0 {
        Seq::empty()
    } else {
        seq![events[0], events[0]] + doubled(events.drop_first())
    }
}

/// An event without token data changes nothing.
pub proof fn law_no_token_data_changes_nothing(w: Watermark, last: Option<OpenAiUsage>)
    ensures
        meaning(w, None, last) is NoTokenData,
        advanced(w, None, last) == w,
{
}

/// The identical event right after itself contributes nothing and changes
/// nothing, whatever it meant the first time.
pub proof fn law_replay_contributes_nothing(
    w: Watermark,
    cumulative: Option<OpenAiUsage>,
    last: Option<OpenAiUsage>,
)
    ensures
        contribution(meaning(advanced(w, cumulative, last), cumulative, last)).is_none(),
        advanced(advanced(w, cumulative, last), cumulative, last) == advanced(w, cumulative, last),
{
}

/// Reading every event twice emits what reading it once does, and ends in the
/// same state.
pub proof fn law_doubled_events_emit_once(w: Watermark, events: Seq<Event>)
    ensures
        emissions(w, doubled(events)) == emissions(w, events),
        after(w, doubled(events)) == after(w, events),
    decreases events.len(),
{
    if events.len() > 0 {
        let e = events[0];
        let rest = events.drop_first();
        let d = doubled(events);
        let w1 = advanced(w, e.0, e.1);
        law_replay_contributes_nothing(w, e.0, e.1);
        law_doubled_events_emit_once(w1, rest);
        assert(d[0] == e && d[1] == e);
        assert(d.drop_first()[0] == e);
        assert(d.drop_first().drop_first() =~= doubled(rest));
        assert(emissions(w1, d.drop_first()) == emissions(w1, doubled(rest)));
        assert(after(w1, d.drop_first()) == after(w1, doubled(rest)));
    }
}

/// A turn never emits a negative or wrapped count: each of its counts is at
/// most the running total's own.
pub proof fn law_turn_is_bounded_by_the_counter(
    w: Watermark,
    now: OpenAiUsage,
    last: Option<OpenAiUsage>,
)
    requires
        meaning(w, Some(now), last) is Turn,
    ensures
        or_zero(meaning(w, Some(now), last)->Turn_usage.input_tokens) <= or_zero(now.input_tokens),
        or_zero(meaning(w, Some(now), last)->Turn_usage.output_tokens) <= or_zero(
            now.output_tokens,
        ),
        ledger_total(meaning(w, Some(now), last)->Turn_usage) <= ledger_total(now),
{
}

/// The sum of the totals of a run of usages.
pub open spec fn total_emitted(usages: Seq<OpenAiUsage>) -> nat
    decreases usages.len(),
{
    if usages.len() == 0 {
        0
    } else {
        ledger_total(usages[0]) as nat + total_emitted(usages.drop_first())
    }
}

/// A run in which every event reports its total, the running total never goes
/// back, and an event that does not advance it is the previous one verbatim.
pub open spec fn on_ledger(w: Watermark, events: Seq<Event>) -> bool
    decreases events.len(),
{
    if events.len() == 0 {
        true
    } else {
        let e = events[0];
        &&& e.0.is_some() && e.0.unwrap().total_tokens.is_some()
        &&& w.cumulative.is_some() ==> w.cumulative.unwrap().total_tokens.is_some()
        &&& contribution(meaning(w, e.0, e.1)).is_some() ==> meaning(w, e.0, e.1) is Turn
        &&& on_ledger(advanced(w, e.0, e.1), events.drop_first())
    }
}

/// On a run that stays on the ledger the emitted deltas sum back to the
/// provider's own running total.
pub proof fn law_deltas_sum_to_the_provider_total(w: Watermark, events: Seq<Event>)
    requires
        on_ledger(w, events),
        events.len() > 0,
    ensures
        after(w, events).cumulative.is_some(),
        total_emitted(emissions(w, events)) + match w.cumulative {
            Some(c) => ledger_total(c) as nat,
            None => 0,
        } == ledger_total(after(w, events).cumulative.unwrap()),
    decreases events.len(),
{
    let e = events[0];
    let rest = events.drop_first();
    let w1 = advanced(w, e.0, e.1);
    if rest.len() > 0 {
        law_deltas_sum_to_the_provider_total(w1, rest);
    } else {
        assert(after(w1, rest) == w1);
        assert(emissions(w1, rest) =~= Seq::empty());
    }
    let more = total_emitted(emissions(w1, rest));
    assert(rest.len() == 0 ==> more == 0);
    assert(after(w, events) == after(w1, rest));
    match contribution(meaning(w, e.0, e.1)) {
        Some(usage) => {
            let all = seq![usage] + emissions(w1, rest);
            assert(emissions(w, events) == all);
            assert(all.drop_first() =~= emissions(w1, rest));
            assert(total_emitted(all) == ledger_total(usage) + more);
        },
        None => {
            assert(emissions(w, events) == emissions(w1, rest));
        },
    }
}

/// A call off the ledger widens the gap by exactly its own total, and an
/// ordinary turn leaves the gap as it was.
pub proof fn law_gap_is_what_the_ledger_leaves_out(
    w: Watermark,
    now: OpenAiUsage,
    last: Option<OpenAiUsage>,
)
    requires
        w.cumulative.is_some() ==> w.cumulative.unwrap().total_tokens.is_some(),
        w.cumulative.is_none() ==> w.emitted_total == 0,
        now.total_tokens.is_some(),
        advanced(w, Some(now), last).emitted_total < i64::MAX,
        ledger_total(now) < i64::MAX,
    ensures
        meaning(w, Some(now), last) is Turn ==> gap(advanced(w, Some(now), last)) == gap(w),
        meaning(w, Some(now), last) is OffLedger ==> gap(advanced(w, Some(now), last)) == gap(w)
            + ledger_total(meaning(w, Some(now), last)->OffLedger_usage),
        meaning(w, Some(now), last) is Replay ==> gap(advanced(w, Some(now), last)) == gap(w),
{
}

/// A running total is the provider's own where it reports one, and otherwise all
/// input and all output.
pub proof fn law_a_running_total_is_the_providers_own(u: OpenAiUsage)
    ensures
        u.total_tokens.is_some() ==> ledger_total(u) == u.total_tokens.unwrap(),
        u.total_tokens.is_none() && u.input_tokens.is_some() && u.output_tokens.is_some()
            && u.input_tokens.unwrap() + u.output_tokens.unwrap() <= u64::MAX ==> ledger_total(u)
            == u.input_tokens.unwrap() + u.output_tokens.unwrap(),
        u.total_tokens.is_none() && u.input_tokens.is_some() && u.output_tokens.is_none()
            ==> ledger_total(u) == u.input_tokens.unwrap(),
        u.total_tokens.is_none() && u.input_tokens.is_none() && u.output_tokens.is_some()
            ==> ledger_total(u) == u.output_tokens.unwrap(),
        u.total_tokens.is_none() && u.input_tokens.is_none() && u.output_tokens.is_none()
            ==> ledger_total(u) == 0,
{
}

/// The first event of a session is a turn of all that it reports.
pub proof fn law_the_first_event_is_a_turn(
    w: Watermark,
    now: OpenAiUsage,
    last: Option<OpenAiUsage>,
)
    requires
        w.cumulative.is_none(),
    ensures
        meaning(w, Some(now), last) == (Reconciled::Turn { usage: now }),
        advanced(w, Some(now), last).cumulative == Some(now),
        advanced(w, Some(now), last).last == last,
{
}

/// What an event means is decided by how far the running total has moved. Where
/// it has grown the event is a turn, which is what was added to each counter;
/// where it stands still the event is a repetition if its last call is the one
/// seen before, and else a call that the ledger leaves out; where it has gone
/// back a new epoch starts with the last call.
pub proof fn law_the_running_total_decides(
    w: Watermark,
    before: OpenAiUsage,
    now: OpenAiUsage,
    last: Option<OpenAiUsage>,
)
    requires
        w.cumulative == Some(before),
        before.total_tokens.is_some(),
        now.total_tokens.is_some(),
    ensures
        before.total_tokens.unwrap() < now.total_tokens.unwrap() ==> meaning(
            w,
            Some(now),
            last,
        ) is Turn
            && takes_apart(now.input_tokens, before.input_tokens, meaning(w, Some(now), last)->Turn_usage.input_tokens)
            && takes_apart(now.cached_input_tokens, before.cached_input_tokens, meaning(w, Some(now), last)->Turn_usage.cached_input_tokens)
            && takes_apart(now.cache_write_input_tokens, before.cache_write_input_tokens, meaning(w, Some(now), last)->Turn_usage.cache_write_input_tokens)
            && takes_apart(now.output_tokens, before.output_tokens, meaning(w, Some(now), last)->Turn_usage.output_tokens)
            && takes_apart(now.reasoning_output_tokens, before.reasoning_output_tokens, meaning(w, Some(now), last)->Turn_usage.reasoning_output_tokens)
            && takes_apart(now.total_tokens, before.total_tokens, meaning(w, Some(now), last)->Turn_usage.total_tokens)
            && advanced(w, Some(now), last).cumulative == Some(now),
        before.total_tokens == now.total_tokens && last == w.last ==> meaning(
            w,
            Some(now),
            last,
        ) is Replay && advanced(w, Some(now), last) == w,
        before.total_tokens == now.total_tokens && last != w.last && last.is_some() ==> meaning(
            w,
            Some(now),
            last,
        ) == (Reconciled::OffLedger { usage: last.unwrap() }) && advanced(
            w,
            Some(now),
            last,
        ).cumulative == Some(before) && advanced(w, Some(now), last).last == last,
        before.total_tokens == now.total_tokens && last != w.last && last.is_none() ==> meaning(
            w,
            Some(now),
            last,
        ) is OffLedger && ledger_total(meaning(w, Some(now), last)->OffLedger_usage) == 0
            && advanced(w, Some(now), last).cumulative == Some(before) && advanced(
            w,
            Some(now),
            last,
        ).last.is_none(),
        now.total_tokens.unwrap() < before.total_tokens.unwrap() ==> meaning(w, Some(now), last)
            == (Reconciled::EpochReset {
            usage: if last.is_some() {
                last.unwrap()
            } else {
                now
            },
            from_total: before.total_tokens.unwrap(),
            to_total: now.total_tokens.unwrap(),
        }) && advanced(w, Some(now), last).cumulative == Some(now),
{
    law_delta_undoes_the_earlier_reading(now, before);
}

/// Epochs are counted: one more for every time that the running total went back,
/// and for no other event.
pub proof fn law_an_epoch_for_every_reset(
    w: Watermark,
    cumulative: Option<OpenAiUsage>,
    last: Option<OpenAiUsage>,
)
    requires
        w.epoch < u32::MAX,
    ensures
        advanced(w, cumulative, last).epoch == w.epoch + if meaning(
            w,
            cumulative,
            last,
        ) is EpochReset {
            1int
        } else {
            0
        },
{
}

/// What is emitted is added up: the total of everything that an event
/// contributes, of whatever kind, and nothing else.
pub proof fn law_everything_emitted_is_counted(
    w: Watermark,
    cumulative: Option<OpenAiUsage>,
    last: Option<OpenAiUsage>,
)
    ensures
        match meaning(w, cumulative, last) {
            Reconciled::Turn { usage }
            | Reconciled::OffLedger { usage }
            | Reconciled::EpochReset { usage, .. } => contribution(meaning(w, cumulative, last))
                == Some(usage) && (w.emitted_total + ledger_total(usage) <= u64::MAX ==> advanced(
                w,
                cumulative,
                last,
            ).emitted_total == w.emitted_total + ledger_total(usage)),
            Reconciled::Replay | Reconciled::NoTokenData => contribution(
                meaning(w, cumulative, last),
            ).is_none() && advanced(w, cumulative, last) == w,
        },
{
}

/// The gap is what was emitted less what the provider's running total says.
pub proof fn law_the_gap_is_a_difference(w: Watermark)
    requires
        w.emitted_total <= i64::MAX,
        w.cumulative.is_some() ==> w.cumulative.unwrap().total_tokens.is_some()
            && w.cumulative.unwrap().total_tokens.unwrap() <= i64::MAX,
    ensures
        w.cumulative.is_none() ==> gap(w) == w.emitted_total,
        w.cumulative.is_some() ==> gap(w) == w.emitted_total
            - w.cumulative.unwrap().total_tokens.unwrap(),
{
}

/// One of the six counters of a usage.
pub open spec fn counter(u: OpenAiUsage, k: int) -> Option<u64> {
    if k == 0 {
        u.input_tokens
    } else if k == 1 {
        u.cached_input_tokens
    } else if k == 2 {
        u.cache_write_input_tokens
    } else if k == 3 {
        u.output_tokens
    } else if k == 4 {
        u.reasoning_output_tokens
    } else {
        u.total_tokens
    }
}

/// The sum of one counter over a run of usages.
pub open spec fn counter_sum(usages: Seq<OpenAiUsage>, k: int) -> int
    decreases usages.len(),
{
    if usages.len() == 0 {
        0
    } else {
        (match counter(usages[0], k) {
            Some(n) => n as int,
            None => 0,
        }) + counter_sum(usages.drop_first(), k)
    }
}

/// A counter is reported throughout a run, and never goes back.
pub open spec fn keeps_growing(w: Watermark, events: Seq<Event>, k: int) -> bool
    decreases events.len(),
{
    if events.len() == 0 {
        true
    } else {
        let e = events[0];
        &&& e.0.is_some() && counter(e.0.unwrap(), k).is_some()
        &&& w.cumulative.is_some() ==> counter(w.cumulative.unwrap(), k).is_some() && counter(
            w.cumulative.unwrap(),
            k,
        ).unwrap() <= counter(e.0.unwrap(), k).unwrap()
        &&& keeps_growing(advanced(w, e.0, e.1), events.drop_first(), k)
    }
}

/// On a run that stays on the ledger every counter of the emitted usage, the
/// cached input and the reasoning among them, sums back to the counter of the
/// last running total.
pub proof fn law_every_counter_sums_to_the_running_total(w: Watermark, events: Seq<Event>, k: int)
    requires
        0 <= k < 6,
        on_ledger(w, events),
        keeps_growing(w, events, k),
        events.len() > 0,
    ensures
        after(w, events).cumulative.is_some(),
        counter(after(w, events).cumulative.unwrap(), k).is_some(),
        counter_sum(emissions(w, events), k) + match w.cumulative {
            Some(c) => counter(c, k).unwrap() as int,
            None => 0,
        } == counter(after(w, events).cumulative.unwrap(), k).unwrap(),
    decreases events.len(),
{
    let e = events[0];
    let rest = events.drop_first();
    let w1 = advanced(w, e.0, e.1);
    if rest.len() > 0 {
        law_every_counter_sums_to_the_running_total(w1, rest, k);
    } else {
        assert(after(w1, rest) == w1);
        assert(emissions(w1, rest) =~= Seq::empty());
    }
    assert(after(w, events) == after(w1, rest));
    let more = counter_sum(emissions(w1, rest), k);
    assert(rest.len() == 0 ==> more == 0);
    if w.cumulative.is_some() {
        law_delta_undoes_the_earlier_reading(e.0.unwrap(), w.cumulative.unwrap());
    }
    match contribution(meaning(w, e.0, e.1)) {
        Some(usage) => {
            let all = seq![usage] + emissions(w1, rest);
            assert(emissions(w, events) == all);
            assert(all.drop_first() =~= emissions(w1, rest));
            assert(all[0] == usage);
            assert(w1.cumulative == e.0);
            if w.cumulative.is_some() {
                assert(takes_apart(
                    counter(e.0.unwrap(), k),
                    counter(w.cumulative.unwrap(), k),
                    counter(usage, k),
                ));
            }
            assert(counter_sum(all, k) == counter(usage, k).unwrap() + more);
        },
        None => {
            assert(emissions(w, events) == emissions(w1, rest));
        },
    }
}

} // verus!
