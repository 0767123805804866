//! The price table.
//!
//! Append-only: a new figure is a new version with its own start, and the
//! previous version stays. A lookup at an instant gives the version in force
//! then, so one in March finds March's rate after a change in August; a lookup
//! without an instant gives the newest.
use vstd::prelude::*;

use crate::decimal::Decimal;
use crate::text::{
    str_eq, str_lt, text_le, text_le_transitive, text_lt, text_lt_irreflexive, text_lt_total,
    text_lt_transitive, texts, Text,
};

verus! {

/// Rates for one model, in USD per million tokens. Cache writes are split by
/// time to live because they are charged differently.
#[derive(Debug, Clone, PartialEq, Eq)]
pub struct Rates {
    pub input_per_mtok: Decimal,
    pub output_per_mtok: Decimal,
    pub cache_read_per_mtok: Decimal,
    pub cache_write_5m_per_mtok: Decimal,
    pub cache_write_1h_per_mtok: Decimal,
}

/// One version of one model's price.
#[derive(Debug, Clone, PartialEq, Eq)]
pub struct ModelPricing {
    pub version_id: String,
    pub model_id: String,
    pub rates: Rates,
    /// When this version takes over, as [`crate::time::to_sql_time`] writes it,
    /// so that it compares as text with the moment of a request.
    pub effective_from: String,
    /// `seed`, `user` or `updater`. A user's own entry wins ties.
    pub source: String,
    /// Where the figure came from.
    pub note: Option<String>,
}

/// Prices, looked up by model.
#[derive(Debug, Clone, PartialEq)]
pub struct PriceTable {
    entries: Vec<ModelPricing>,
}

impl View for PriceTable {
    type V = Seq<ModelPricing>;

    closed spec fn view(&self) -> Seq<ModelPricing> {
        self.entries@
    }
}

/// An entry that a user made.
pub open spec fn by_user(e: ModelPricing) -> bool {
    e.source@ == "user"@
}

/// Order along a model's timeline: by start, and at the same start a user's
/// entry after a shipped one.
pub open spec fn timeline_le(a: ModelPricing, b: ModelPricing) -> bool {
    text_lt(a.effective_from@, b.effective_from@) || (a.effective_from@ == b.effective_from@ && (
    by_user(a) ==> by_user(b)))
}

/// A version of a model that has begun by an instant; without an instant,
/// whenever it begins.
pub open spec fn applies(e: ModelPricing, model: Text, at: Option<Text>) -> bool {
    e.model_id@ == model && match at {
        Some(t) => text_le(e.effective_from@, t),
        None => true,
    }
}

/// Where the version stands that is last on its model's timeline among those
/// that have begun; of versions that tie, the one entered last.
pub open spec fn in_force(entries: Seq<ModelPricing>, model: Text, at: Option<Text>) -> Option<int>
    decreases entries.len(),
{
    if entries.len() == 0 {
        None
    } else {
        let before = in_force(entries.drop_last(), model, at);
        let e = entries.last();
        let here: int = entries.len() - 1;
        if applies(e, model, at) {
            match before {
                Some(b) => if timeline_le(entries[b], e) {
                    Some(here)
                } else {
                    Some(b)
                },
                None => Some(here),
            }
        } else {
            before
        }
    }
}

/// When a model's first version begins.
pub open spec fn first_start(entries: Seq<ModelPricing>, model: Text) -> Option<Text>
    decreases entries.len(),
{
    if entries.len() == 0 {
        None
    } else {
        let before = first_start(entries.drop_last(), model);
        let e = entries.last();
        if e.model_id@ == model {
            match before {
                Some(b) => if text_lt(e.effective_from@, b) {
                    Some(e.effective_from@)
                } else {
                    Some(b)
                },
                None => Some(e.effective_from@),
            }
        } else {
            before
        }
    }
}

/// Where the price stands that a model's usage at an instant takes: the version
/// in force, or the earliest for usage older than every version.
pub open spec fn price_at(entries: Seq<ModelPricing>, model: Text, at: Text) -> Option<int> {
    match in_force(entries, model, Some(at)) {
        Some(i) => Some(i),
        None => match first_start(entries, model) {
            Some(first) => in_force(entries, model, Some(first)),
            None => None,
        },
    }
}

/// An instant at which some model's price changes: a version begins then, and
/// an earlier version of that model has begun before.
pub open spec fn is_break(entries: Seq<ModelPricing>, t: Text) -> bool {
    exists|i: int, j: int|
        #![trigger entries[i], entries[j]]
        0 <= i < entries.len() && 0 <= j < entries.len() && entries[i].effective_from@ == t
            && entries[j].model_id@ == entries[i].model_id@ && text_lt(
            entries[j].effective_from@,
            t,
        )
}

/// Texts in strictly ascending order.
pub open spec fn ascending(v: Seq<Text>) -> bool {
    forall|i: int, j: int| 0 <= i < j < v.len() ==> text_lt(#[trigger] v[i], #[trigger] v[j])
}

proof fn in_force_is_last(entries: Seq<ModelPricing>, model: Text, at: Option<Text>)
    ensures
        match in_force(entries, model, at) {
            Some(i) => 0 <= i < entries.len() && applies(entries[i], model, at) && forall|j: int|
                0 <= j < entries.len() && applies(#[trigger] entries[j], model, at) ==> timeline_le(
                    entries[j],
                    entries[i],
                ) && (timeline_le(entries[i], entries[j]) ==> j <= i),
            None => forall|j: int|
                0 <= j < entries.len() ==> !applies(#[trigger] entries[j], model, at),
        },
    decreases entries.len(),
{
    if entries.len() > 0 {
        let d = entries.drop_last();
        in_force_is_last(d, model, at);
        let n = entries.len() - 1;
        let e = entries.last();
        match in_force(entries, model, at) {
            Some(i) => {
                assert forall|j: int|
                    0 <= j < entries.len() && applies(#[trigger] entries[j], model, at) implies
                    timeline_le(entries[j], entries[i]) && (timeline_le(entries[i], entries[j])
                    ==> j <= i) by {
                    if j < n {
                        assert(d[j] == entries[j]);
                        let b = in_force(d, model, at).unwrap();
                        assert(timeline_le(d[j], d[b]));
                        if i == n {
                            timeline_transitive(entries[j], entries[b], e);
                        }
                    } else {
                        timeline_reflexive(e);
                        if i != n {
                            timeline_total(entries[i], e);
                        }
                    }
                }
            },
            None => {
                assert forall|j: int| 0 <= j < entries.len() implies !applies(
                    #[trigger] entries[j],
                    model,
                    at,
                ) by {
                    if j < n {
                        assert(d[j] == entries[j]);
                    }
                }
            },
        }
    }
}

proof fn timeline_reflexive(a: ModelPricing)
    ensures
        timeline_le(a, a),
{
}

proof fn timeline_total(a: ModelPricing, b: ModelPricing)
    ensures
        timeline_le(a, b) || timeline_le(b, a),
{
    text_lt_total(a.effective_from@, b.effective_from@);
}

proof fn timeline_transitive(a: ModelPricing, b: ModelPricing, c: ModelPricing)
    requires
        timeline_le(a, b),
        timeline_le(b, c),
    ensures
        timeline_le(a, c),
{
    let x = a.effective_from@;
    let y = b.effective_from@;
    let z = c.effective_from@;
    if text_lt(x, y) && text_lt(y, z) {
        text_lt_transitive(x, y, z);
    }
}

proof fn first_start_is_first(entries: Seq<ModelPricing>, model: Text)
    ensures
        match first_start(entries, model) {
            Some(t) => (exists|i: int|
                0 <= i < entries.len() && (#[trigger] entries[i]).model_id@ == model
                    && entries[i].effective_from@ == t) && forall|j: int|
                0 <= j < entries.len() && (#[trigger] entries[j]).model_id@ == model ==> text_le(
                    t,
                    entries[j].effective_from@,
                ),
            None => forall|j: int|
                0 <= j < entries.len() ==> (#[trigger] entries[j]).model_id@ != model,
        },
    decreases entries.len(),
{
    if entries.len() > 0 {
        let d = entries.drop_last();
        first_start_is_first(d, model);
        let n = entries.len() - 1;
        let e = entries.last();
        match first_start(entries, model) {
            Some(t) => {
                match first_start(d, model) {
                    Some(b) => {
                        let i = choose|i: int|
                            0 <= i < d.len() && (#[trigger] d[i]).model_id@ == model
                                && d[i].effective_from@ == b;
                        assert(entries[i] == d[i]);
                    },
                    None => {},
                }
                assert(entries[n] == e);
                text_lt_irreflexive(e.effective_from@);
                assert forall|j: int|
                    0 <= j < entries.len() && (#[trigger] entries[j]).model_id@ == model implies
                    text_le(t, entries[j].effective_from@) by {
                    if j < n {
                        assert(d[j] == entries[j]);
                        let b = first_start(d, model).unwrap();
                        if t != b {
                            lt_is_le(t, b);
                            text_le_transitive(t, b, entries[j].effective_from@);
                        }
                    }
                }
            },
            None => {
                assert forall|j: int| 0 <= j < entries.len() implies (
                #[trigger] entries[j]).model_id@ != model by {
                    if j < n {
                        assert(d[j] == entries[j]);
                    }
                }
            },
        }
    }
}

proof fn lt_is_le(a: Text, b: Text)
    requires
        text_lt(a, b),
    ensures
        text_le(a, b),
{
    if text_lt(b, a) {
        text_lt_transitive(a, b, a);
        text_lt_irreflexive(a);
    }
}

proof fn le_and_lt(a: Text, b: Text, c: Text)
    requires
        text_le(a, b),
        text_lt(b, c),
    ensures
        text_lt(a, c),
{
    text_lt_total(a, b);
    if text_lt(a, b) {
        text_lt_transitive(a, b, c);
    }
}

proof fn same_choice(
    entries: Seq<ModelPricing>,
    model: Text,
    at: Option<Text>,
    other: Option<Text>,
)
    requires
        forall|i: int|
            0 <= i < entries.len() ==> applies(#[trigger] entries[i], model, at) == applies(
                entries[i],
                model,
                other,
            ),
    ensures
        in_force(entries, model, at) == in_force(entries, model, other),
    decreases entries.len(),
{
    if entries.len() > 0 {
        let d = entries.drop_last();
        assert forall|i: int| 0 <= i < d.len() implies applies(#[trigger] d[i], model, at)
            == applies(d[i], model, other) by {
            assert(d[i] == entries[i]);
        }
        same_choice(d, model, at, other);
        assert(entries[entries.len() - 1] == entries.last());
    }
}

/// A model has a price at every instant or at none: exactly when some version
/// prices it.
pub proof fn law_priced_models_are_priced_always(
    entries: Seq<ModelPricing>,
    model: Text,
    at: Text,
)
    ensures
        price_at(entries, model, at).is_some() <==> exists|i: int|
            0 <= i < entries.len() && (#[trigger] entries[i]).model_id@ == model,
{
    in_force_is_last(entries, model, Some(at));
    first_start_is_first(entries, model);
    match first_start(entries, model) {
        Some(first) => {
            in_force_is_last(entries, model, Some(first));
            let i = choose|i: int|
                0 <= i < entries.len() && (#[trigger] entries[i]).model_id@ == model
                    && entries[i].effective_from@ == first;
            text_lt_irreflexive(first);
            assert(applies(entries[i], model, Some(first)));
        },
        None => {},
    }
}

/// A price is only ever the named model's own: there is no matching by prefix
/// or family.
pub proof fn law_lookup_is_exact(entries: Seq<ModelPricing>, model: Text, at: Text)
    ensures
        price_at(entries, model, at).is_some() ==> 0 <= price_at(entries, model, at).unwrap()
            < entries.len() && entries[price_at(entries, model, at).unwrap()].model_id@ == model,
{
    in_force_is_last(entries, model, Some(at));
    if let Some(first) = first_start(entries, model) {
        in_force_is_last(entries, model, Some(first));
    }
}

/// A version applies from its start until the next one begins: the price taken
/// is of a version that has begun, and none that has begun comes after it on
/// the timeline.
pub proof fn law_version_in_force_is_the_latest_begun(
    entries: Seq<ModelPricing>,
    model: Text,
    at: Text,
    j: int,
)
    requires
        0 <= j < entries.len(),
        applies(entries[j], model, Some(at)),
    ensures
        price_at(entries, model, at).is_some(),
        applies(entries[price_at(entries, model, at).unwrap()], model, Some(at)),
        timeline_le(entries[j], entries[price_at(entries, model, at).unwrap()]),
{
    in_force_is_last(entries, model, Some(at));
}

/// Usage older than every version of its model takes an earliest one.
pub proof fn law_old_usage_takes_the_earliest(
    entries: Seq<ModelPricing>,
    model: Text,
    at: Text,
    j: int,
)
    requires
        0 <= j < entries.len(),
        entries[j].model_id@ == model,
        forall|i: int| 0 <= i < entries.len() ==> !applies(#[trigger] entries[i], model, Some(at)),
    ensures
        price_at(entries, model, at).is_some(),
        text_le(
            entries[price_at(entries, model, at).unwrap()].effective_from@,
            entries[j].effective_from@,
        ),
{
    in_force_is_last(entries, model, Some(at));
    law_priced_models_are_priced_always(entries, model, at);
    first_start_is_first(entries, model);
    let first = first_start(entries, model).unwrap();
    in_force_is_last(entries, model, Some(first));
    let i = price_at(entries, model, at).unwrap();
    text_le_transitive(entries[i].effective_from@, first, entries[j].effective_from@);
}

/// A user's entry beats a shipped one that begins at the same instant, in
/// whatever order the two were loaded.
pub proof fn law_user_entry_wins_a_tie(
    entries: Seq<ModelPricing>,
    model: Text,
    at: Text,
    user: int,
    shipped: int,
)
    requires
        0 <= user < entries.len(),
        0 <= shipped < entries.len(),
        entries[user].model_id@ == model,
        entries[shipped].model_id@ == model,
        entries[user].effective_from@ == entries[shipped].effective_from@,
        by_user(entries[user]),
        !by_user(entries[shipped]),
    ensures
        price_at(entries, model, at) != Some(shipped),
{
    in_force_is_last(entries, model, Some(at));
    text_lt_irreflexive(entries[user].effective_from@);
    match in_force(entries, model, Some(at)) {
        Some(i) => {
            if i == shipped {
                assert(applies(entries[user], model, Some(at)));
                assert(timeline_le(entries[user], entries[shipped]));
            }
        },
        None => {
            if let Some(first) = first_start(entries, model) {
                in_force_is_last(entries, model, Some(first));
                if in_force(entries, model, Some(first)) == Some(shipped) {
                    assert(applies(entries[user], model, Some(first)));
                    assert(timeline_le(entries[user], entries[shipped]));
                }
            }
        },
    }
}

/// A new version changes nothing about usage that happened before it begins,
/// nor about another model's: the usage keeps the very version it had.
pub proof fn law_new_version_leaves_the_past_alone(
    entries: Seq<ModelPricing>,
    added: ModelPricing,
    model: Text,
    at: Text,
)
    requires
        added.model_id@ != model || (text_lt(at, added.effective_from@) && in_force(
            entries,
            model,
            Some(at),
        ).is_some()),
    ensures
        price_at(entries.push(added), model, at) == price_at(entries, model, at),
{
    let more = entries.push(added);
    assert(more.drop_last() =~= entries);
    if let Some(first) = first_start(entries, model) {
        assert(more.drop_last() =~= entries);
    }
}

/// Between two instants without a price change every model's usage takes the
/// same version, so usage that is summed between two breaks can be priced at
/// one rate.
pub proof fn law_no_price_changes_between_breaks(
    entries: Seq<ModelPricing>,
    model: Text,
    a: Text,
    b: Text,
)
    requires
        text_le(a, b),
        forall|t: Text| #[trigger] is_break(entries, t) ==> !(text_lt(a, t) && text_le(t, b)),
    ensures
        price_at(entries, model, a) == price_at(entries, model, b),
{
    in_force_is_last(entries, model, Some(a));
    in_force_is_last(entries, model, Some(b));
    first_start_is_first(entries, model);
    match in_force(entries, model, Some(a)) {
        Some(i) => {
            assert forall|j: int| 0 <= j < entries.len() implies applies(
                #[trigger] entries[j],
                model,
                Some(a),
            ) == applies(entries[j], model, Some(b)) by {
                let t = entries[j].effective_from@;
                if applies(entries[j], model, Some(a)) {
                    text_le_transitive(t, a, b);
                }
                if applies(entries[j], model, Some(b)) && text_lt(a, t) {
                    le_and_lt(entries[i].effective_from@, a, t);
                    assert(is_break(entries, t));
                }
            }
            same_choice(entries, model, Some(a), Some(b));
        },
        None => {
            match in_force(entries, model, Some(b)) {
                None => {},
                Some(k) => {
                    let first = first_start(entries, model).unwrap();
                    let f = choose|f: int|
                        0 <= f < entries.len() && (#[trigger] entries[f]).model_id@ == model
                            && entries[f].effective_from@ == first;
                    text_le_transitive(first, entries[k].effective_from@, b);
                    assert forall|j: int| 0 <= j < entries.len() implies applies(
                        #[trigger] entries[j],
                        model,
                        Some(b),
                    ) == applies(entries[j], model, Some(first)) by {
                        let t = entries[j].effective_from@;
                        if applies(entries[j], model, Some(first)) {
                            text_le_transitive(t, first, b);
                        }
                        if applies(entries[j], model, Some(b)) && text_lt(first, t) {
                            assert(!applies(entries[j], model, Some(a)));
                            assert(entries[f].model_id@ == entries[j].model_id@);
                            assert(is_break(entries, t));
                        }
                    }
                    same_choice(entries, model, Some(b), Some(first));
                },
            }
        },
    }
}

impl PriceTable {
    pub fn from_entries(entries: Vec<ModelPricing>) -> (t: Self)
        ensures
            t@ == entries@,
    {
        PriceTable { entries }
    }

    fn latest(&self, model_id: &str, at: Option<&str>) -> (r: Option<usize>)
        ensures
            match r {
                Some(i) => i < self@.len() && in_force(
                    self@,
                    model_id@,
                    match at {
                        Some(t) => Some(t@),
                        None => None,
                    },
                ) == Some(i as int),
                None => in_force(
                    self@,
                    model_id@,
                    match at {
                        Some(t) => Some(t@),
                        None => None,
                    },
                ).is_none(),
            },
    {
        let ghost bound: Option<Text> = match at {
            Some(t) => Some(t@),
            None => None,
        };
        let mut best: Option<usize> = None;
        let mut i: usize = 0;
        while i < self.entries.len()
            invariant
                i <= self.entries.len(),
                bound == match at {
                    Some(t) => Some(t@),
                    None => None::<Text>,
                },
                match best {
                    Some(b) => b < i && in_force(self@.take(i as int), model_id@, bound) == Some(
                        b as int,
                    ),
                    None => in_force(self@.take(i as int), model_id@, bound).is_none(),
                },
            decreases self.entries.len() - i,
        {
            let e = &self.entries[i];
            proof {
                assert(self@.take(i + 1).drop_last() =~= self@.take(i as int));
                assert(self@.take(i + 1).last() == *e);
            }
            let begun = match at {
                Some(t) => !str_lt(t, e.effective_from.as_str()),
                None => true,
            };
            if str_eq(e.model_id.as_str(), model_id) && begun {
                let replace = match best {
                    Some(b) => {
                        let p = &self.entries[b];
                        proof {
                            assert(self@.take(i + 1)[b as int] == *p);
                        }
                        str_lt(p.effective_from.as_str(), e.effective_from.as_str()) || (str_eq(
                            p.effective_from.as_str(),
                            e.effective_from.as_str(),
                        ) && (!str_eq(p.source.as_str(), "user") || str_eq(
                            e.source.as_str(),
                            "user",
                        )))
                    },
                    None => true,
                };
                if replace {
                    best = Some(i);
                }
            }
            i += 1;
        }
        proof {
            assert(self@.take(i as int) =~= self@);
        }
        best
    }

    fn earliest<'a>(&'a self, model_id: &str) -> (r: Option<&'a String>)
        ensures
            match r {
                Some(t) => first_start(self@, model_id@) == Some(t@),
                None => first_start(self@, model_id@).is_none(),
            },
    {
        let mut first: Option<&'a String> = None;
        let mut i: usize = 0;
        while i < self.entries.len()
            invariant
                i <= self.entries.len(),
                match first {
                    Some(t) => first_start(self@.take(i as int), model_id@) == Some(t@),
                    None => first_start(self@.take(i as int), model_id@).is_none(),
                },
            decreases self.entries.len() - i,
        {
            let e = &self.entries[i];
            proof {
                assert(self@.take(i + 1).drop_last() =~= self@.take(i as int));
                assert(self@.take(i + 1).last() == *e);
            }
            if str_eq(e.model_id.as_str(), model_id) {
                let replace = match first {
                    Some(t) => str_lt(e.effective_from.as_str(), t.as_str()),
                    None => true,
                };
                if replace {
                    first = Some(&e.effective_from);
                }
            }
            i += 1;
        }
        proof {
            assert(self@.take(i as int) =~= self@);
        }
        first
    }

    /// The price in force for a model at an instant.
    ///
    /// A version applies from its start until the next one begins, and a user's
    /// entry beats a shipped one only when both begin at the same instant.
    /// Usage older than every version takes the earliest. Exact match only.
    pub fn lookup_at(&self, model_id: &str, at: &str) -> (r: Option<&ModelPricing>)
        ensures
            match r {
                Some(p) => price_at(self@, model_id@, at@).is_some() && *p == self@[price_at(
                    self@,
                    model_id@,
                    at@,
                ).unwrap()],
                None => price_at(self@, model_id@, at@).is_none(),
            },
    {
        match self.latest(model_id, Some(at)) {
            Some(i) => Some(&self.entries[i]),
            None => match self.earliest(model_id) {
                Some(first) => match self.latest(model_id, Some(first.as_str())) {
                    Some(i) => Some(&self.entries[i]),
                    None => None,
                },
                None => None,
            },
        }
    }

    /// The last version on a model's timeline: its current price.
    pub fn lookup(&self, model_id: &str) -> (r: Option<&ModelPricing>)
        ensures
            match r {
                Some(p) => in_force(self@, model_id@, None).is_some() && *p == self@[in_force(
                    self@,
                    model_id@,
                    None,
                ).unwrap()],
                None => in_force(self@, model_id@, None).is_none(),
            },
    {
        match self.latest(model_id, None) {
            Some(i) => Some(&self.entries[i]),
            None => None,
        }
    }

    /// Every instant at which some model's price changes, oldest first.
    ///
    /// A model's first version is not a change: it covers everything before it
    /// as well.
    pub fn breaks(&self) -> (r: Vec<String>)
        ensures
            ascending(texts(r@)),
            forall|t: Text| #[trigger] texts(r@).contains(t) <==> is_break(self@, t),
    {
        let mut out: Vec<String> = Vec::new();
        let mut i: usize = 0;
        proof {
            assert(texts(out@) =~= Seq::empty());
        }
        while i < self.entries.len()
            invariant
                i <= self.entries.len(),
                ascending(texts(out@)),
                forall|t: Text| #[trigger]
                    texts(out@).contains(t) <==> changes_before(self@, i as int, t),
            decreases self.entries.len() - i,
        {
            let e = &self.entries[i];
            let ghost before = texts(out@);
            if self.begins_later(i) {
                insert_ascending(&mut out, &e.effective_from);
            }
            proof {
                assert forall|t: Text| #[trigger] texts(out@).contains(t) <==> changes_before(
                    self@,
                    i + 1,
                    t,
                ) by {
                    assert(before.contains(t) <==> changes_before(self@, i as int, t));
                    changes_step(self@, i as int, t);
                }
            }
            i += 1;
        }
        proof {
            assert forall|t: Text| #[trigger] texts(out@).contains(t) <==> is_break(self@, t) by {
                if is_break(self@, t) {
                    let (k, j) = choose|k: int, j: int|
                        #![trigger self@[k], self@[j]]
                        0 <= k < self@.len() && 0 <= j < self@.len() && self@[k].effective_from@
                            == t && self@[j].model_id@ == self@[k].model_id@ && text_lt(
                            self@[j].effective_from@,
                            t,
                        );
                    assert(later_than_another(self@, k));
                }
                if changes_before(self@, i as int, t) {
                    let k = choose|k: int|
                        0 <= k < i && #[trigger] later_than_another(self@, k)
                            && self@[k].effective_from@ == t;
                    let j = choose|j: int|
                        0 <= j < self@.len() && (#[trigger] self@[j]).model_id@
                            == self@[k].model_id@ && text_lt(
                            self@[j].effective_from@,
                            self@[k].effective_from@,
                        );
                    assert(self@[k].effective_from@ == t && self@[j].model_id@
                        == self@[k].model_id@);
                }
            }
        }
        out
    }

    /// Whether another version of the same model begins before this one.
    fn begins_later(&self, i: usize) -> (b: bool)
        requires
            i < self@.len(),
        ensures
            b == later_than_another(self@, i as int),
    {
        let e = &self.entries[i];
        let mut j: usize = 0;
        while j < self.entries.len()
            invariant
                j <= self.entries.len(),
                i < self.entries.len(),
                *e == self@[i as int],
                forall|k: int|
                    0 <= k < j ==> !((#[trigger] self@[k]).model_id@ == e.model_id@ && text_lt(
                        self@[k].effective_from@,
                        e.effective_from@,
                    )),
            decreases self.entries.len() - j,
        {
            let o = &self.entries[j];
            if str_eq(o.model_id.as_str(), e.model_id.as_str()) && str_lt(
                o.effective_from.as_str(),
                e.effective_from.as_str(),
            ) {
                proof {
                    assert(self@[j as int] == *o);
                }
                return true;
            }
            j += 1;
        }
        false
    }

    pub fn models(&self) -> (r: Vec<&ModelPricing>)
        ensures
            r@.len() == self@.len(),
            forall|i: int| 0 <= i < r@.len() ==> *#[trigger] r@[i] == self@[i],
    {
        let mut out: Vec<&ModelPricing> = Vec::new();
        let mut i: usize = 0;
        while i < self.entries.len()
            invariant
                i <= self.entries.len(),
                out@.len() == i,
                forall|k: int| 0 <= k < i ==> *#[trigger] out@[k] == self@[k],
            decreases self.entries.len() - i,
        {
            out.push(&self.entries[i]);
            i += 1;
        }
        out
    }

    /// Whether any version prices this model, at any time.
    pub fn has_price(&self, model_id: &str) -> (b: bool)
        ensures
            b == exists|i: int|
                0 <= i < self@.len() && (#[trigger] self@[i]).model_id@ == model_id@,
    {
        let mut i: usize = 0;
        while i < self.entries.len()
            invariant
                i <= self.entries.len(),
                forall|k: int| 0 <= k < i ==> (#[trigger] self@[k]).model_id@ != model_id@,
            decreases self.entries.len() - i,
        {
            if str_eq(self.entries[i].model_id.as_str(), model_id) {
                proof {
                    assert(self@[i as int].model_id@ == model_id@);
                }
                return true;
            }
            i += 1;
        }
        false
    }

    /// Add a version. Never replaces an existing one.
    pub fn push(&mut self, pricing: ModelPricing)
        ensures
            final(self)@ == old(self)@.push(pricing),
    {
        self.entries.push(pricing);
    }

    pub fn len(&self) -> (n: usize)
        ensures
            n == self@.len(),
    {
        self.entries.len()
    }

    pub fn is_empty(&self) -> (b: bool)
        ensures
            b == (self@.len() == 0),
    {
        self.entries.len() == 0
    }
}

/// Another version of the same model begins before this one.
pub open spec fn later_than_another(entries: Seq<ModelPricing>, i: int) -> bool {
    exists|j: int|
        0 <= j < entries.len() && (#[trigger] entries[j]).model_id@ == entries[i].model_id@
            && text_lt(entries[j].effective_from@, entries[i].effective_from@)
}

/// One of the first `n` versions begins at `t` and is not its model's first.
pub open spec fn changes_before(entries: Seq<ModelPricing>, n: int, t: Text) -> bool {
    exists|i: int|
        0 <= i < n && #[trigger] later_than_another(entries, i) && entries[i].effective_from@ == t
}

proof fn changes_step(entries: Seq<ModelPricing>, i: int, t: Text)
    requires
        0 <= i < entries.len(),
    ensures
        changes_before(entries, i + 1, t) <==> changes_before(entries, i, t) || (
        later_than_another(entries, i) && entries[i].effective_from@ == t),
{
    if changes_before(entries, i + 1, t) && !changes_before(entries, i, t) {
        let k = choose|k: int|
            0 <= k < i + 1 && #[trigger] later_than_another(entries, k)
                && entries[k].effective_from@ == t;
        assert(k == i);
    }
    if changes_before(entries, i, t) {
        let k = choose|k: int|
            0 <= k < i && #[trigger] later_than_another(entries, k) && entries[k].effective_from@
                == t;
        assert(0 <= k < i + 1);
    }
}

/// A list with a text put before the first larger one, unless it is there
/// already.
pub open spec fn inserted(v: Seq<Text>, t: Text) -> Seq<Text>
    decreases v.len(),
{
    if v.len() == 0 {
        seq![t]
    } else if v[0] == t {
        v
    } else if text_lt(v[0], t) {
        seq![v[0]] + inserted(v.drop_first(), t)
    } else {
        seq![t] + v
    }
}

proof fn inserted_behind(v: Seq<Text>, t: Text, i: int)
    requires
        0 <= i <= v.len(),
        forall|k: int| 0 <= k < i ==> text_lt(#[trigger] v[k], t),
    ensures
        inserted(v, t) == v.take(i) + inserted(v.skip(i), t),
    decreases i,
{
    if i == 0 {
        assert(v.skip(0) =~= v);
        assert(v.take(0) + inserted(v, t) =~= inserted(v, t));
    } else {
        text_lt_irreflexive(t);
        let d = v.drop_first();
        assert forall|k: int| 0 <= k < i - 1 implies text_lt(#[trigger] d[k], t) by {
            assert(d[k] == v[k + 1]);
        }
        assert(text_lt(v[0], t));
        inserted_behind(d, t, i - 1);
        assert(d.skip(i - 1) =~= v.skip(i));
        assert(seq![v[0]] + (d.take(i - 1) + inserted(v.skip(i), t)) =~= v.take(i) + inserted(
            v.skip(i),
            t,
        ));
    }
}

/// Add a text to an ascending list, unless it is there already.
pub(crate) fn insert_ascending(v: &mut Vec<String>, t: &String)
    requires
        ascending(texts(old(v)@)),
    ensures
        texts(final(v)@) == inserted(texts(old(v)@), t@),
        ascending(texts(final(v)@)),
        forall|x: Text| #[trigger]
            texts(final(v)@).contains(x) <==> texts(old(v)@).contains(x) || x == t@,
{
    let ghost before = texts(v@);
    let mut i: usize = 0;
    while i < v.len() && str_lt(v[i].as_str(), t.as_str())
        invariant
            i <= v.len(),
            before == texts(v@),
            forall|k: int| 0 <= k < i ==> text_lt(#[trigger] before[k], t@),
        decreases v.len() - i,
    {
        i += 1;
    }
    proof {
        inserted_behind(before, t@, i as int);
        assert(before.take(i as int) + before.skip(i as int) =~= before);
    }
    if i < v.len() && str_eq(v[i].as_str(), t.as_str()) {
        proof {
            assert(before[i as int] == t@);
            assert(before.skip(i as int)[0] == t@);
        }
        return ;
    }
    v.insert(i, t.clone());
    proof {
        let now = texts(v@);
        assert(now =~= before.insert(i as int, t@));
        if i < before.len() {
            text_lt_total(before[i as int], t@);
            assert(text_lt(t@, before[i as int]));
            assert(before.skip(i as int)[0] == before[i as int]);
        }
        assert(now =~= before.take(i as int) + inserted(before.skip(i as int), t@));
        assert forall|a: int, b: int| 0 <= a < b < now.len() implies text_lt(
            #[trigger] now[a],
            #[trigger] now[b],
        ) by {
            if b == i {
                assert(now[a] == before[a]);
            } else if a == i {
                assert(now[b] == before[b - 1]);
                if b - 1 > i {
                    text_lt_transitive(t@, before[i as int], before[b - 1]);
                }
            } else if b < i {
                assert(now[a] == before[a] && now[b] == before[b]);
            } else if a < i {
                assert(now[a] == before[a] && now[b] == before[b - 1]);
            } else {
                assert(now[a] == before[a - 1] && now[b] == before[b - 1]);
            }
        }
        assert forall|x: Text| #[trigger] now.contains(x) <==> before.contains(x) || x == t@ by {
            if now.contains(x) {
                let k = choose|k: int| 0 <= k < now.len() && now[k] == x;
                if k < i {
                    assert(before[k] == x);
                } else if k > i {
                    assert(before[k - 1] == x);
                }
            }
            if before.contains(x) {
                let k = choose|k: int| 0 <= k < before.len() && before[k] == x;
                if k < i {
                    assert(now[k] == x);
                } else {
                    assert(now[k + 1] == x);
                }
            }
            if x == t@ {
                assert(now[i as int] == x);
            }
        }
    }
}

/// A lookup without an instant gives the newest version of the very model: no
/// version of it begins later, a user's own entry stands before a shipped one
/// that begins at the same instant, and of two such the one entered last.
pub proof fn law_lookup_gives_the_newest(entries: Seq<ModelPricing>, model: Text, j: int)
    requires
        0 <= j < entries.len(),
        entries[j].model_id@ == model,
    ensures
        in_force(entries, model, None).is_some(),
        ({
            let i = in_force(entries, model, None).unwrap();
            &&& 0 <= i < entries.len()
            &&& entries[i].model_id@ == model
            &&& !text_lt(entries[i].effective_from@, entries[j].effective_from@)
            &&& entries[j].effective_from@ == entries[i].effective_from@ && entries[j].source@
                == "user"@ ==> entries[i].source@ == "user"@
            &&& entries[j].effective_from@ == entries[i].effective_from@ && (entries[j].source@
                == "user"@) == (entries[i].source@ == "user"@) ==> j <= i
        }),
{
    in_force_is_last(entries, model, None);
    assert(applies(entries[j], model, None));
    let i = in_force(entries, model, None).unwrap();
    assert(timeline_le(entries[j], entries[i]));
    if text_lt(entries[i].effective_from@, entries[j].effective_from@) {
        text_lt_irreflexive(entries[i].effective_from@);
        if text_lt(entries[j].effective_from@, entries[i].effective_from@) {
            text_lt_transitive(
                entries[i].effective_from@,
                entries[j].effective_from@,
                entries[i].effective_from@,
            );
        }
    }
    text_lt_irreflexive(entries[i].effective_from@);
}

/// A lookup at an instant gives a version that has begun by then, where the model
/// has one, and no version that has begun by then begins later; a user's own
/// entry stands before a shipped one that begins at the same instant.
pub proof fn law_lookup_at_gives_what_was_in_force(
    entries: Seq<ModelPricing>,
    model: Text,
    at: Text,
    j: int,
)
    requires
        0 <= j < entries.len(),
        entries[j].model_id@ == model,
        !text_lt(at, entries[j].effective_from@),
    ensures
        price_at(entries, model, at).is_some(),
        ({
            let i = price_at(entries, model, at).unwrap();
            &&& 0 <= i < entries.len()
            &&& entries[i].model_id@ == model
            &&& !text_lt(at, entries[i].effective_from@)
            &&& !text_lt(entries[i].effective_from@, entries[j].effective_from@)
            &&& entries[j].effective_from@ == entries[i].effective_from@ && entries[j].source@
                == "user"@ ==> entries[i].source@ == "user"@
        }),
{
    in_force_is_last(entries, model, Some(at));
    assert(applies(entries[j], model, Some(at)));
    let i = price_at(entries, model, at).unwrap();
    assert(timeline_le(entries[j], entries[i]));
    text_lt_irreflexive(entries[i].effective_from@);
    if text_lt(entries[i].effective_from@, entries[j].effective_from@) {
        if text_lt(entries[j].effective_from@, entries[i].effective_from@) {
            text_lt_transitive(
                entries[i].effective_from@,
                entries[j].effective_from@,
                entries[i].effective_from@,
            );
        }
    }
}

/// Adding a text to an ascending list keeps it ascending and adds that text, once.
pub proof fn law_inserting_adds_once(v: Seq<Text>, t: Text, x: Text)
    requires
        ascending(v),
    ensures
        ascending(inserted(v, t)),
        inserted(v, t).contains(x) <==> v.contains(x) || x == t,
    decreases v.len(),
{
    let r = inserted(v, t);
    if v.len() == 0 {
        assert(r =~= seq![t]);
        assert(r[0] == t);
    } else {
        let d = v.drop_first();
        assert forall|i: int, j: int| 0 <= i < j < d.len() implies text_lt(
            #[trigger] d[i],
            #[trigger] d[j],
        ) by {
            assert(d[i] == v[i + 1] && d[j] == v[j + 1]);
        }
        law_inserting_adds_once(d, t, x);
        text_lt_total(v[0], t);
        text_lt_irreflexive(t);
        assert(v =~= seq![v[0]] + d);
        if v[0] == t {
            assert(r == v);
            assert(v[0] == t);
        } else if text_lt(v[0], t) {
            let e = inserted(d, t);
            assert(r == seq![v[0]] + e);
            assert forall|i: int, j: int| 0 <= i < j < r.len() implies text_lt(
                #[trigger] r[i],
                #[trigger] r[j],
            ) by {
                assert(r[j] == e[j - 1]);
                if i > 0 {
                    assert(r[i] == e[i - 1]);
                } else {
                    assert(e.contains(e[j - 1]));
                    law_inserting_adds_once(d, t, e[j - 1]);
                    if e[j - 1] != t {
                        let k = choose|k: int| 0 <= k < d.len() && d[k] == e[j - 1];
                        assert(v[k + 1] == d[k]);
                    }
                }
            }
            if r.contains(x) {
                let i = choose|i: int| 0 <= i < r.len() && r[i] == x;
                if i == 0 {
                    assert(v[0] == x);
                } else {
                    assert(e[i - 1] == x);
                    assert(e.contains(x));
                    if x != t {
                        let k = choose|k: int| 0 <= k < d.len() && d[k] == x;
                        assert(v[k + 1] == x);
                    }
                }
            }
            if v.contains(x) || x == t {
                if x == v[0] {
                    assert(r[0] == x);
                } else {
                    if v.contains(x) {
                        let k = choose|k: int| 0 <= k < v.len() && v[k] == x;
                        assert(d[k - 1] == x);
                    }
                    let i = choose|i: int| 0 <= i < e.len() && e[i] == x;
                    assert(r[i + 1] == x);
                }
            }
        } else {
            assert(text_lt(t, v[0]));
            if text_lt(v[0], t) {
                text_lt_transitive(v[0], t, v[0]);
                text_lt_irreflexive(v[0]);
            }
            assert(r == seq![t] + v);
            assert forall|i: int, j: int| 0 <= i < j < r.len() implies text_lt(
                #[trigger] r[i],
                #[trigger] r[j],
            ) by {
                assert(r[j] == v[j - 1]);
                if i > 0 {
                    assert(r[i] == v[i - 1]);
                } else if j > 1 {
                    text_lt_transitive(t, v[0], v[j - 1]);
                }
            }
            if r.contains(x) {
                let i = choose|i: int| 0 <= i < r.len() && r[i] == x;
                if i > 0 {
                    assert(v[i - 1] == x);
                }
            }
            if v.contains(x) {
                let k = choose|k: int| 0 <= k < v.len() && v[k] == x;
                assert(r[k + 1] == x);
            }
            assert(r[0] == t);
        }
    }
}

/// Usage that is older than every version of its model takes one that begins
/// first.
pub proof fn law_usage_before_every_version_takes_the_first(
    entries: Seq<ModelPricing>,
    model: Text,
    at: Text,
    j: int,
)
    requires
        0 <= j < entries.len(),
        entries[j].model_id@ == model,
        forall|i: int|
            0 <= i < entries.len() && (#[trigger] entries[i]).model_id@ == model ==> text_lt(
                at,
                entries[i].effective_from@,
            ),
    ensures
        price_at(entries, model, at).is_some(),
        entries[price_at(entries, model, at).unwrap()].model_id@ == model,
        !text_lt(
            entries[j].effective_from@,
            entries[price_at(entries, model, at).unwrap()].effective_from@,
        ),
{
    assert forall|i: int| 0 <= i < entries.len() implies !applies(
        #[trigger] entries[i],
        model,
        Some(at),
    ) by {}
    law_old_usage_takes_the_earliest(entries, model, at, j);
    law_lookup_is_exact(entries, model, at);
}

/// A price changes at an instant exactly where a version begins then and another
/// version of the same model has begun before.
pub proof fn law_a_price_changes_where_a_later_version_begins(
    entries: Seq<ModelPricing>,
    t: Text,
    i: int,
    j: int,
)
    requires
        0 <= i < entries.len(),
        0 <= j < entries.len(),
    ensures
        entries[i].effective_from@ == t && entries[j].model_id@ == entries[i].model_id@ && text_lt(
            entries[j].effective_from@,
            entries[i].effective_from@,
        ) ==> is_break(entries, t),
        is_break(entries, t) ==> exists|a: int, b: int|
            #![trigger entries[a], entries[b]]
            0 <= a < entries.len() && 0 <= b < entries.len() && entries[a].effective_from@ == t
                && entries[a].model_id@ == entries[b].model_id@ && text_lt(
                entries[b].effective_from@,
                t,
            ),
{
    if is_break(entries, t) {
        let (a, b) = choose|a: int, b: int|
            #![trigger entries[a], entries[b]]
            0 <= a < entries.len() && 0 <= b < entries.len() && entries[a].effective_from@ == t
                && entries[b].model_id@ == entries[a].model_id@ && text_lt(
                entries[b].effective_from@,
                t,
            );
        assert(entries[a].model_id@ == entries[b].model_id@);
    }
}

} // verus!
