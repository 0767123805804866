//! Measurement provenance.
//!
//! Every number carries the story of where it came from. A number is never
//! presented as more certain than it is; missing data is *unavailable*, never
//! zero, and never quietly replaced by an estimate.
//!
//! Classification is by authorship of the number, that is by who computed it,
//! not by the medium it travelled through.
use vstd::prelude::*;
use vstd::string::StringExecFns;

use crate::text::Text;

verus! {

/// Who authored a measurement.
#[derive(Debug, Clone, Copy, PartialEq, Eq, Hash, Structural)]
pub enum MeasurementSource {
    /// The provider's own infrastructure produced this number and it arrived
    /// without recomputation.
    ProviderReported,
    /// Read off the wire between client and provider.
    ProtocolMetadata,
    /// Computed by the agent application, not the provider.
    ApplicationTelemetry,
    /// The model's real tokenizer run over text that is legitimately held.
    TokenizerCalculated,
    /// Heuristic approximation.
    Estimated,
}

/// The words an interface may use about a number's certainty.
#[derive(Debug, Clone, Copy, PartialEq, Eq, Structural)]
pub enum DisplayKind {
    Exact,
    Calculated,
    Estimated,
    /// Some contributing measurements are missing: a lower bound.
    Partial,
    Unavailable,
}

/// Why a measurement could not be produced.
#[derive(Debug, Clone, PartialEq, Eq)]
pub enum UnavailableReason {
    /// The application exposes no usage data at all.
    NoTelemetry { detail: String },
    /// This provider does not report this particular field.
    NotReportedByProvider { field: String, detail: String },
    /// A request happened but failed before any usage was reported.
    RequestFailed { detail: String },
    /// There are tokens but no price for this model.
    NoPricingForModel { model_id: String },
    /// The model was not known at ingest time, so cost cannot be computed.
    ModelUnknown { detail: String },
    /// Billed under a subscription; a per-token charge does not exist.
    SubscriptionBilled { plan: String },
    /// Requires a capture level that is not enabled.
    RequiresCaptureLevel { level: String, detail: String },
}

/// The certainty attached to a value.
///
/// `Unavailable` is the only variant that may accompany a missing value, and a
/// present value may never be `Unavailable`.
#[derive(Debug, Clone, PartialEq, Eq)]
pub enum Accuracy {
    Exact { source: MeasurementSource },
    Calculated { source: MeasurementSource },
    Estimated { source: MeasurementSource },
    /// An aggregate where some contributors reported and some did not: a floor
    /// over `measured` of `total` inputs. `reason` says what is missing where
    /// the counts alone do not, and is empty where they do.
    Partial { measured: u32, total: u32, reason: String },
    Unavailable { reason: UnavailableReason },
}

/// A value together with how certain it is.
#[derive(Debug, Clone, PartialEq, Eq)]
pub struct Measured<T> {
    /// `None` if and only if `accuracy` is `Unavailable`.
    pub value: Option<T>,
    pub accuracy: Accuracy,
}

/// An [`UnavailableReason`] with its texts as characters.
pub enum UnavailableReasonView {
    NoTelemetry { detail: Text },
    NotReportedByProvider { field: Text, detail: Text },
    RequestFailed { detail: Text },
    NoPricingForModel { model_id: Text },
    ModelUnknown { detail: Text },
    SubscriptionBilled { plan: Text },
    RequiresCaptureLevel { level: Text, detail: Text },
}

/// An [`Accuracy`] with its texts as characters.
pub enum AccuracyView {
    Exact { source: MeasurementSource },
    Calculated { source: MeasurementSource },
    Estimated { source: MeasurementSource },
    Partial { measured: u32, total: u32, reason: Text },
    Unavailable { reason: UnavailableReasonView },
}

/// A [`Measured`] with its texts as characters.
pub struct MeasuredView<T> {
    pub value: Option<T>,
    pub accuracy: AccuracyView,
}

impl View for UnavailableReason {
    type V = UnavailableReasonView;

    open spec fn view(&self) -> UnavailableReasonView {
        match *self {
            UnavailableReason::NoTelemetry { detail } => UnavailableReasonView::NoTelemetry {
                detail: detail@,
            },
            UnavailableReason::NotReportedByProvider { field, detail } => {
                UnavailableReasonView::NotReportedByProvider { field: field@, detail: detail@ }
            },
            UnavailableReason::RequestFailed { detail } => UnavailableReasonView::RequestFailed {
                detail: detail@,
            },
            UnavailableReason::NoPricingForModel { model_id } => {
                UnavailableReasonView::NoPricingForModel { model_id: model_id@ }
            },
            UnavailableReason::ModelUnknown { detail } => UnavailableReasonView::ModelUnknown {
                detail: detail@,
            },
            UnavailableReason::SubscriptionBilled { plan } => {
                UnavailableReasonView::SubscriptionBilled { plan: plan@ }
            },
            UnavailableReason::RequiresCaptureLevel { level, detail } => {
                UnavailableReasonView::RequiresCaptureLevel { level: level@, detail: detail@ }
            },
        }
    }
}

impl View for Accuracy {
    type V = AccuracyView;

    open spec fn view(&self) -> AccuracyView {
        match *self {
            Accuracy::Exact { source } => AccuracyView::Exact { source },
            Accuracy::Calculated { source } => AccuracyView::Calculated { source },
            Accuracy::Estimated { source } => AccuracyView::Estimated { source },
            Accuracy::Partial { measured, total, reason } => AccuracyView::Partial {
                measured,
                total,
                reason: reason@,
            },
            Accuracy::Unavailable { reason } => AccuracyView::Unavailable { reason: reason@ },
        }
    }
}

impl<T> View for Measured<T> {
    type V = MeasuredView<T>;

    open spec fn view(&self) -> MeasuredView<T> {
        MeasuredView { value: self.value, accuracy: self.accuracy@ }
    }
}

/// What a source is called: the provider's own numbers are exact, numbers
/// computed from them are calculated.
pub open spec fn source_kind(source: MeasurementSource) -> DisplayKind {
    match source {
        MeasurementSource::ProviderReported | MeasurementSource::ProtocolMetadata => {
            DisplayKind::Exact
        },
        MeasurementSource::ApplicationTelemetry | MeasurementSource::TokenizerCalculated => {
            DisplayKind::Calculated
        },
        MeasurementSource::Estimated => DisplayKind::Estimated,
    }
}

impl MeasurementSource {
    /// How this source is described to a human.
    pub fn display_kind(self) -> (k: DisplayKind)
        ensures
            k == source_kind(self),
    {
        match self {
            MeasurementSource::ProviderReported | MeasurementSource::ProtocolMetadata => {
                DisplayKind::Exact
            },
            MeasurementSource::ApplicationTelemetry | MeasurementSource::TokenizerCalculated => {
                DisplayKind::Calculated
            },
            MeasurementSource::Estimated => DisplayKind::Estimated,
        }
    }
}

impl UnavailableReasonView {
    /// The sentence shown for a reason.
    pub open spec fn sentence(self) -> Text {
        match self {
            UnavailableReasonView::NoTelemetry { detail } => detail,
            UnavailableReasonView::NotReportedByProvider { detail, .. } => detail,
            UnavailableReasonView::RequestFailed { detail } => detail,
            UnavailableReasonView::ModelUnknown { detail } => detail,
            UnavailableReasonView::NoPricingForModel { model_id } => {
                "No price is configured for model `"@ + model_id + "`."@
            },
            UnavailableReasonView::SubscriptionBilled { plan } => {
                "Billed under the "@ + plan + " subscription, not per token."@
            },
            UnavailableReasonView::RequiresCaptureLevel { level, detail } => {
                detail + " Enable "@ + level + " to measure this."@
            },
        }
    }
}

impl UnavailableReason {
    /// A single sentence for a tooltip or a label.
    pub fn sentence(&self) -> (s: String)
        ensures
            s@ == self@.sentence(),
    {
        match self {
            UnavailableReason::NoTelemetry { detail } => detail.clone(),
            UnavailableReason::RequestFailed { detail } => detail.clone(),
            UnavailableReason::ModelUnknown { detail } => detail.clone(),
            UnavailableReason::NotReportedByProvider { detail, .. } => detail.clone(),
            UnavailableReason::NoPricingForModel { model_id } => {
                let mut s = "No price is configured for model `".to_owned();
                s.append(model_id.as_str());
                s.append("`.");
                s
            },
            UnavailableReason::SubscriptionBilled { plan } => {
                let mut s = "Billed under the ".to_owned();
                s.append(plan.as_str());
                s.append(" subscription, not per token.");
                s
            },
            UnavailableReason::RequiresCaptureLevel { level, detail } => {
                let mut s = detail.clone();
                s.append(" Enable ");
                s.append(level.as_str());
                s.append(" to measure this.");
                s
            },
        }
    }

    /// An exact copy.
    pub fn copy(&self) -> (r: UnavailableReason)
        ensures
            r == *self,
    {
        match self {
            UnavailableReason::NoTelemetry { detail } => UnavailableReason::NoTelemetry {
                detail: detail.clone(),
            },
            UnavailableReason::NotReportedByProvider { field, detail } => {
                UnavailableReason::NotReportedByProvider {
                    field: field.clone(),
                    detail: detail.clone(),
                }
            },
            UnavailableReason::RequestFailed { detail } => UnavailableReason::RequestFailed {
                detail: detail.clone(),
            },
            UnavailableReason::NoPricingForModel { model_id } => {
                UnavailableReason::NoPricingForModel { model_id: model_id.clone() }
            },
            UnavailableReason::ModelUnknown { detail } => UnavailableReason::ModelUnknown {
                detail: detail.clone(),
            },
            UnavailableReason::SubscriptionBilled { plan } => {
                UnavailableReason::SubscriptionBilled { plan: plan.clone() }
            },
            UnavailableReason::RequiresCaptureLevel { level, detail } => {
                UnavailableReason::RequiresCaptureLevel {
                    level: level.clone(),
                    detail: detail.clone(),
                }
            },
        }
    }
}

impl AccuracyView {
    /// The word for this certainty.
    pub open spec fn kind(self) -> DisplayKind {
        match self {
            AccuracyView::Exact { .. } => DisplayKind::Exact,
            AccuracyView::Calculated { .. } => DisplayKind::Calculated,
            AccuracyView::Estimated { .. } => DisplayKind::Estimated,
            AccuracyView::Partial { .. } => DisplayKind::Partial,
            AccuracyView::Unavailable { .. } => DisplayKind::Unavailable,
        }
    }
}

/// How much a certainty is worth; the least one present decides a total.
pub open spec fn kind_strength(k: DisplayKind) -> int {
    match k {
        DisplayKind::Exact => 4,
        DisplayKind::Calculated => 3,
        DisplayKind::Estimated => 2,
        DisplayKind::Partial => 1,
        DisplayKind::Unavailable => 0,
    }
}

impl Accuracy {
    pub fn display_kind(&self) -> (k: DisplayKind)
        ensures
            k == self@.kind(),
    {
        match self {
            Accuracy::Exact { .. } => DisplayKind::Exact,
            Accuracy::Calculated { .. } => DisplayKind::Calculated,
            Accuracy::Estimated { .. } => DisplayKind::Estimated,
            Accuracy::Partial { .. } => DisplayKind::Partial,
            Accuracy::Unavailable { .. } => DisplayKind::Unavailable,
        }
    }

    pub fn is_available(&self) -> (b: bool)
        ensures
            b == !(*self is Unavailable),
    {
        match self {
            Accuracy::Unavailable { .. } => false,
            _ => true,
        }
    }

    /// Ordering used when folding many measurements into one.
    fn strength(&self) -> (n: u8)
        ensures
            n == kind_strength(self@.kind()),
    {
        match self {
            Accuracy::Exact { .. } => 4,
            Accuracy::Calculated { .. } => 3,
            Accuracy::Estimated { .. } => 2,
            Accuracy::Partial { .. } => 1,
            Accuracy::Unavailable { .. } => 0,
        }
    }

    /// An exact copy.
    pub fn copy(&self) -> (r: Accuracy)
        ensures
            r == *self,
    {
        match self {
            Accuracy::Exact { source } => Accuracy::Exact { source: *source },
            Accuracy::Calculated { source } => Accuracy::Calculated { source: *source },
            Accuracy::Estimated { source } => Accuracy::Estimated { source: *source },
            Accuracy::Partial { measured, total, reason } => Accuracy::Partial {
                measured: *measured,
                total: *total,
                reason: reason.clone(),
            },
            Accuracy::Unavailable { reason } => Accuracy::Unavailable { reason: reason.copy() },
        }
    }
}

impl<T> MeasuredView<T> {
    /// A value is present exactly when it is not called unavailable.
    pub open spec fn wf(self) -> bool {
        self.value.is_some() <==> !(self.accuracy is Unavailable)
    }
}

impl<T> Measured<T> {
    /// A value is present exactly when it is not called unavailable.
    pub open spec fn wf(self) -> bool {
        self@.wf()
    }

    /// A number the provider itself reported.
    pub fn exact(value: T, source: MeasurementSource) -> (m: Self)
        ensures
            m == (Measured { value: Some(value), accuracy: Accuracy::Exact { source } }),
            m.wf(),
    {
        Measured { value: Some(value), accuracy: Accuracy::Exact { source } }
    }

    /// A number derived from data that is held.
    pub fn calculated(value: T, source: MeasurementSource) -> (m: Self)
        ensures
            m == (Measured { value: Some(value), accuracy: Accuracy::Calculated { source } }),
            m.wf(),
    {
        Measured { value: Some(value), accuracy: Accuracy::Calculated { source } }
    }

    pub fn estimated(value: T) -> (m: Self)
        ensures
            m == (Measured {
                value: Some(value),
                accuracy: Accuracy::Estimated { source: MeasurementSource::Estimated },
            }),
            m.wf(),
    {
        Measured {
            value: Some(value),
            accuracy: Accuracy::Estimated { source: MeasurementSource::Estimated },
        }
    }

    /// A floor: `measured` of `total` contributors reported a value.
    pub fn partial(value: T, measured: u32, total: u32, reason: String) -> (m: Self)
        ensures
            m == (Measured {
                value: Some(value),
                accuracy: Accuracy::Partial { measured, total, reason },
            }),
            m.wf(),
    {
        Measured { value: Some(value), accuracy: Accuracy::Partial { measured, total, reason } }
    }

    /// No number. There is no way to supply one alongside a reason.
    pub fn unavailable(reason: UnavailableReason) -> (m: Self)
        ensures
            m == (Measured::<T> { value: None, accuracy: Accuracy::Unavailable { reason } }),
            m.wf(),
    {
        Measured { value: None, accuracy: Accuracy::Unavailable { reason } }
    }

    /// Build from a source and an `Option`, classifying automatically: a field
    /// that is absent becomes `Unavailable` with a reason, never a zero.
    pub fn from_option(
        value: Option<T>,
        source: MeasurementSource,
        absent: UnavailableReason,
    ) -> (m: Self)
        ensures
            m.value == value,
            value.is_none() ==> m.accuracy == (Accuracy::Unavailable { reason: absent }),
            value.is_some() ==> m.accuracy == match source_kind(source) {
                DisplayKind::Exact => Accuracy::Exact { source },
                DisplayKind::Estimated => Accuracy::Estimated { source },
                _ => Accuracy::Calculated { source },
            },
            m.wf(),
            classified(value, source, absent, m),
    {
        match value {
            Some(v) => match source.display_kind() {
                DisplayKind::Exact => Self::exact(v, source),
                DisplayKind::Estimated => Measured {
                    value: Some(v),
                    accuracy: Accuracy::Estimated { source },
                },
                _ => Self::calculated(v, source),
            },
            None => Self::unavailable(absent),
        }
    }

    pub fn display_kind(&self) -> (k: DisplayKind)
        ensures
            k == self@.accuracy.kind(),
    {
        self.accuracy.display_kind()
    }

    /// The same certainty about a value computed from this one.
    pub fn map<U, F: FnOnce(T) -> U>(self, f: F) -> (m: Measured<U>)
        requires
            self.value.is_some() ==> f.requires((self.value.unwrap(),)),
        ensures
            m.accuracy == self.accuracy,
            self.value.is_none() ==> m.value.is_none(),
            self.value.is_some() ==> m.value.is_some() && f.ensures(
                (self.value.unwrap(),),
                m.value.unwrap(),
            ),
    {
        Measured {
            value: match self.value {
                Some(v) => Some(f(v)),
                None => None,
            },
            accuracy: self.accuracy,
        }
    }
}

/// How many of the parts carry a value.
pub open spec fn measured_count(parts: Seq<Measured<u64>>) -> nat
    decreases parts.len(),
{
    if parts.len() == 0 {
        0
    } else {
        measured_count(parts.drop_last()) + if parts.last().value.is_some() {
            1nat
        } else {
            0nat
        }
    }
}

/// The sum of the values that are present.
pub open spec fn value_sum(parts: Seq<Measured<u64>>) -> nat
    decreases parts.len(),
{
    if parts.len() == 0 {
        0
    } else {
        value_sum(parts.drop_last()) + match parts.last().value {
            Some(v) => v as nat,
            None => 0,
        }
    }
}

/// Where the weakest certainty stands; of several, the first.
pub open spec fn weakest_at(parts: Seq<Measured<u64>>) -> int
    recommends
        parts.len() > 0,
    decreases parts.len(),
{
    if parts.len() <= 1 {
        0
    } else {
        let before = weakest_at(parts.drop_last());
        if kind_strength(parts.last()@.accuracy.kind()) < kind_strength(
            parts[before]@.accuracy.kind(),
        ) {
            parts.len() - 1
        } else {
            before
        }
    }
}

/// The reason of the first part that has one.
pub open spec fn first_reason(parts: Seq<Measured<u64>>) -> Option<UnavailableReasonView>
    decreases parts.len(),
{
    if parts.len() == 0 {
        None
    } else {
        match parts[0]@.accuracy {
            AccuracyView::Unavailable { reason } => Some(reason),
            _ => first_reason(parts.drop_first()),
        }
    }
}

/// The largest value a `u64` holds, or the number itself where it is smaller.
pub open spec fn clamp_u64(n: nat) -> u64 {
    if n <= u64::MAX {
        n as u64
    } else {
        u64::MAX
    }
}

/// The largest value a `u32` holds, or the number itself where it is smaller.
pub open spec fn clamp_u32(n: nat) -> u32 {
    if n <= u32::MAX {
        n as u32
    } else {
        u32::MAX
    }
}

/// What the parts add up to, and how certain that is.
pub open spec fn sum_of(parts: Seq<Measured<u64>>) -> MeasuredView<u64> {
    let total = clamp_u32(parts.len());
    let measured = clamp_u32(measured_count(parts));
    let acc = clamp_u64(value_sum(parts));
    if parts.len() == 0 {
        MeasuredView {
            value: None,
            accuracy: AccuracyView::Unavailable {
                reason: UnavailableReasonView::NoTelemetry {
                    detail: "Nothing has been measured yet."@,
                },
            },
        }
    } else if measured == 0 {
        MeasuredView {
            value: None,
            accuracy: AccuracyView::Unavailable {
                reason: match first_reason(parts) {
                    Some(reason) => reason,
                    None => UnavailableReasonView::NoTelemetry {
                        detail: "No contributing measurement reported a value."@,
                    },
                },
            },
        }
    } else if measured < total {
        MeasuredView {
            value: Some(acc),
            accuracy: AccuracyView::Partial { measured, total, reason: Seq::empty() },
        }
    } else {
        MeasuredView {
            value: Some(acc),
            accuracy: match parts[weakest_at(parts)]@.accuracy {
                AccuracyView::Estimated { .. } => AccuracyView::Estimated {
                    source: MeasurementSource::Estimated,
                },
                AccuracyView::Unavailable { .. } => AccuracyView::Partial {
                    measured,
                    total,
                    reason: Seq::empty(),
                },
                weakest => weakest,
            },
        }
    }
}

proof fn weakest_at_in_range(parts: Seq<Measured<u64>>)
    requires
        parts.len() > 0,
    ensures
        0 <= weakest_at(parts) < parts.len(),
    decreases parts.len(),
{
    if parts.len() > 1 {
        weakest_at_in_range(parts.drop_last());
    }
}

proof fn first_reason_extend(parts: Seq<Measured<u64>>, i: int)
    requires
        0 <= i < parts.len(),
        first_reason(parts.take(i)).is_none(),
    ensures
        first_reason(parts.take(i + 1)) == match parts[i]@.accuracy {
            AccuracyView::Unavailable { reason } => Some(reason),
            _ => None::<UnavailableReasonView>,
        },
    decreases i,
{
    if i == 0 {
        assert(parts.take(1).drop_first() =~= parts.take(0));
        assert(parts.take(1)[0] == parts[0]);
    } else {
        assert(parts.take(i)[0] == parts[0]);
        assert(parts.take(i + 1)[0] == parts[0]);
        assert(parts.take(i).drop_first() =~= parts.drop_first().take(i - 1));
        assert(parts.take(i + 1).drop_first() =~= parts.drop_first().take(i));
        first_reason_extend(parts.drop_first(), i - 1);
    }
}

proof fn first_reason_found(parts: Seq<Measured<u64>>, i: int)
    requires
        0 <= i <= parts.len(),
        first_reason(parts.take(i)).is_some(),
    ensures
        first_reason(parts) == first_reason(parts.take(i)),
    decreases i,
{
    if i > 0 {
        assert(parts.take(i)[0] == parts[0]);
        match parts[0]@.accuracy {
            AccuracyView::Unavailable { .. } => {},
            _ => {
                assert(parts.take(i).drop_first() =~= parts.drop_first().take(i - 1));
                first_reason_found(parts.drop_first(), i - 1);
            },
        }
    }
}

impl Measured<u64> {
    /// Fold many measurements into one total.
    ///
    /// Any missing contributor makes the total a lower bound, and with no
    /// contributor measured there is no total at all: nothing that is missing
    /// is ever added as a zero.
    pub fn sum(parts: &[Measured<u64>]) -> (m: Measured<u64>)
        ensures
            m@ == sum_of(parts@),
            m.wf(),
    {
        let total: u32 = if parts.len() <= u32::MAX as usize {
            parts.len() as u32
        } else {
            u32::MAX
        };
        if parts.len() == 0 {
            return Self::unavailable(
                UnavailableReason::NoTelemetry {
                    detail: "Nothing has been measured yet.".to_owned(),
                },
            );
        }
        let mut acc: u64 = 0;
        let mut measured: u32 = 0;
        let mut weakest: usize = 0;
        let mut i: usize = 0;
        while i < parts.len()
            invariant
                parts.len() > 0,
                i <= parts.len(),
                acc == clamp_u64(value_sum(parts@.take(i as int))),
                measured == clamp_u32(measured_count(parts@.take(i as int))),
                measured_count(parts@.take(i as int)) <= i,
                i == 0 ==> weakest == 0,
                i > 0 ==> weakest == weakest_at(parts@.take(i as int)) && weakest < i,
            decreases parts.len() - i,
        {
            proof {
                assert(parts@.take(i + 1).drop_last() =~= parts@.take(i as int));
                assert(parts@.take(i + 1).last() == parts@[i as int]);
            }
            if let Some(v) = parts[i].value {
                acc = acc.saturating_add(v);
                measured = measured.saturating_add(1);
            }
            if parts[i].accuracy.strength() < parts[weakest].accuracy.strength() {
                weakest = i;
            }
            i += 1;
        }
        proof {
            assert(parts@.take(i as int) =~= parts@);
        }
        if measured == 0 {
            let mut j: usize = 0;
            while j < parts.len()
                invariant
                    j <= parts.len(),
                    first_reason(parts@.take(j as int)).is_none(),
                    parts.len() > 0,
                    measured_count(parts@) == 0,
                decreases parts.len() - j,
            {
                proof {
                    first_reason_extend(parts@, j as int);
                }
                if let Accuracy::Unavailable { reason } = &parts[j].accuracy {
                    proof {
                        first_reason_found(parts@, j + 1);
                    }
                    return Self::unavailable(reason.copy());
                }
                j += 1;
            }
            proof {
                assert(parts@.take(j as int) =~= parts@);
            }
            return Self::unavailable(
                UnavailableReason::NoTelemetry {
                    detail: "No contributing measurement reported a value.".to_owned(),
                },
            );
        }
        if measured < total {
            return Self::partial(acc, measured, total, String::new());
        }
        match &parts[weakest].accuracy {
            Accuracy::Exact { source } => Self::exact(acc, *source),
            Accuracy::Calculated { source } => Self::calculated(acc, *source),
            Accuracy::Estimated { .. } => Self::estimated(acc),
            Accuracy::Partial { measured: m, total: t, reason } => {
                Self::partial(acc, *m, *t, reason.clone())
            },
            Accuracy::Unavailable { .. } => Self::partial(acc, measured, total, String::new()),
        }
    }
}

proof fn weakest_at_weakest(parts: Seq<Measured<u64>>, i: int)
    requires
        0 <= i < parts.len(),
    ensures
        kind_strength(parts[weakest_at(parts)]@.accuracy.kind()) <= kind_strength(
            parts[i]@.accuracy.kind(),
        ),
    decreases parts.len(),
{
    if parts.len() > 1 {
        let before = parts.drop_last();
        weakest_at_in_range(before);
        if i < before.len() {
            weakest_at_weakest(before, i);
        }
    }
}

proof fn count_with_missing(parts: Seq<Measured<u64>>, i: int)
    requires
        0 <= i < parts.len(),
        parts[i].value.is_none(),
    ensures
        measured_count(parts) < parts.len(),
    decreases parts.len(),
{
    if i < parts.len() - 1 {
        count_with_missing(parts.drop_last(), i);
    } else {
        count_bounded(parts.drop_last());
    }
}

proof fn count_bounded(parts: Seq<Measured<u64>>)
    ensures
        measured_count(parts) <= parts.len(),
    decreases parts.len(),
{
    if parts.len() > 0 {
        count_bounded(parts.drop_last());
    }
}

proof fn count_of_none(parts: Seq<Measured<u64>>)
    requires
        forall|i: int| 0 <= i < parts.len() ==> parts[i].value.is_none(),
    ensures
        measured_count(parts) == 0,
    decreases parts.len(),
{
    if parts.len() > 0 {
        count_of_none(parts.drop_last());
    }
}

proof fn count_of_all(parts: Seq<Measured<u64>>)
    requires
        forall|i: int| 0 <= i < parts.len() ==> parts[i].value.is_some(),
    ensures
        measured_count(parts) == parts.len(),
    decreases parts.len(),
{
    if parts.len() > 0 {
        count_of_all(parts.drop_last());
    }
}

/// A total with a missing contributor is a lower bound at best: it is partial
/// or unavailable, never exact, calculated or estimated.
pub proof fn law_missing_part_is_never_hidden(parts: Seq<Measured<u64>>, i: int)
    requires
        0 <= i < parts.len() <= u32::MAX,
        parts[i].value.is_none(),
    ensures
        sum_of(parts).accuracy is Partial || sum_of(parts).accuracy is Unavailable,
{
    count_with_missing(parts, i);
}

/// With nothing measured the total is unavailable, never zero.
pub proof fn law_nothing_measured_is_unavailable(parts: Seq<Measured<u64>>)
    requires
        forall|i: int| 0 <= i < parts.len() ==> parts[i].value.is_none(),
    ensures
        sum_of(parts).value.is_none(),
        sum_of(parts).accuracy is Unavailable,
{
    count_of_none(parts);
}

/// A total is never more certain than any one of its measured parts, so no
/// further exact part restores a certainty that was lost.
pub proof fn law_total_no_more_certain_than_a_part(parts: Seq<Measured<u64>>, i: int)
    requires
        0 <= i < parts.len() <= u32::MAX,
        parts[i].wf(),
        parts[i].value.is_some(),
    ensures
        kind_strength(sum_of(parts).accuracy.kind()) <= kind_strength(parts[i]@.accuracy.kind()),
{
    weakest_at_in_range(parts);
    weakest_at_weakest(parts, i);
}

/// An exact total has only exact parts.
pub proof fn law_exact_total_has_only_exact_parts(parts: Seq<Measured<u64>>, i: int)
    requires
        0 <= i < parts.len() <= u32::MAX,
        parts[i].wf(),
        sum_of(parts).accuracy is Exact,
    ensures
        parts[i].accuracy is Exact,
{
    if parts[i].value.is_none() {
        count_with_missing(parts, i);
    } else {
        law_total_no_more_certain_than_a_part(parts, i);
    }
}

/// When every part was measured, the total carries the weakest certainty among
/// them and the whole sum.
pub proof fn law_complete_total_carries_the_weakest(parts: Seq<Measured<u64>>)
    requires
        0 < parts.len() <= u32::MAX,
        forall|i: int|
            #![trigger parts[i]]
            0 <= i < parts.len() ==> parts[i].value.is_some() && parts[i].wf(),
    ensures
        sum_of(parts).value == Some(clamp_u64(value_sum(parts))),
        sum_of(parts).accuracy.kind() == parts[weakest_at(parts)]@.accuracy.kind(),
{
    count_of_all(parts);
    weakest_at_in_range(parts);
    assert(parts[weakest_at(parts)].wf());
}

/// One part more adds its value to the sum, and counts as measured, exactly where
/// it has one.
pub proof fn law_a_part_adds_its_value(parts: Seq<Measured<u64>>, m: Measured<u64>)
    ensures
        value_sum(Seq::empty()) == 0,
        measured_count(Seq::empty()) == 0,
        m.value.is_some() ==> value_sum(parts.push(m)) == value_sum(parts) + m.value.unwrap()
            && measured_count(parts.push(m)) == measured_count(parts) + 1,
        m.value.is_none() ==> value_sum(parts.push(m)) == value_sum(parts) && measured_count(
            parts.push(m),
        ) == measured_count(parts),
{
    assert(parts.push(m).drop_last() =~= parts);
}

proof fn counts_are_bounded(parts: Seq<Measured<u64>>)
    ensures
        measured_count(parts) <= parts.len(),
    decreases parts.len(),
{
    if parts.len() > 0 {
        counts_are_bounded(parts.drop_last());
    }
}

/// A total is the sum of the values that are there, as far as it fits, and a
/// floor says how many of how many parts were measured.
pub proof fn law_a_total_is_the_sum_of_its_parts(parts: Seq<Measured<u64>>)
    requires
        parts.len() <= u32::MAX,
    ensures
        measured_count(parts) == 0 <==> sum_of(parts).value.is_none(),
        measured_count(parts) > 0 && value_sum(parts) <= u64::MAX ==> sum_of(parts).value.unwrap()
            == value_sum(parts),
        0 < measured_count(parts) < parts.len() ==> sum_of(parts).accuracy is Partial && sum_of(
            parts,
        ).accuracy->measured == measured_count(parts) && sum_of(parts).accuracy->total
            == parts.len(),
{
    counts_are_bounded(parts);
}

/// How certainties rank: exact before calculated, calculated before estimated,
/// estimated before a floor, and a floor before nothing.
pub proof fn law_certainties_are_ranked()
    ensures
        kind_strength(DisplayKind::Exact) > kind_strength(DisplayKind::Calculated),
        kind_strength(DisplayKind::Calculated) > kind_strength(DisplayKind::Estimated),
        kind_strength(DisplayKind::Estimated) > kind_strength(DisplayKind::Partial),
        kind_strength(DisplayKind::Partial) > kind_strength(DisplayKind::Unavailable),
{
}

/// Each certainty is shown as what it is.
pub proof fn law_a_certainty_is_shown_as_it_is(a: AccuracyView)
    ensures
        a is Exact <==> a.kind() == DisplayKind::Exact,
        a is Calculated <==> a.kind() == DisplayKind::Calculated,
        a is Estimated <==> a.kind() == DisplayKind::Estimated,
        a is Partial <==> a.kind() == DisplayKind::Partial,
        a is Unavailable <==> a.kind() == DisplayKind::Unavailable,
{
}

/// The provider's own numbers are exact, what is computed from them is
/// calculated, and a guess is an estimate.
pub proof fn law_a_source_has_its_certainty()
    ensures
        source_kind(MeasurementSource::ProviderReported) == DisplayKind::Exact,
        source_kind(MeasurementSource::ProtocolMetadata) == DisplayKind::Exact,
        source_kind(MeasurementSource::ApplicationTelemetry) == DisplayKind::Calculated,
        source_kind(MeasurementSource::TokenizerCalculated) == DisplayKind::Calculated,
        source_kind(MeasurementSource::Estimated) == DisplayKind::Estimated,
{
}

/// A reason is told in its own words, and names the model, the plan or the level
/// that it speaks of.
pub proof fn law_a_reason_is_told_in_its_own_words(detail: Text, field: Text, name: Text)
    ensures
        (UnavailableReasonView::NoTelemetry { detail }).sentence() == detail,
        (UnavailableReasonView::NotReportedByProvider { field, detail }).sentence() == detail,
        (UnavailableReasonView::RequestFailed { detail }).sentence() == detail,
        (UnavailableReasonView::ModelUnknown { detail }).sentence() == detail,
        exists|a: Text, b: Text| (UnavailableReasonView::NoPricingForModel {
            model_id: name,
        }).sentence() == #[trigger] (a + name + b),
        exists|a: Text, b: Text| (UnavailableReasonView::SubscriptionBilled {
            plan: name,
        }).sentence() == #[trigger] (a + name + b),
        exists|a: Text, b: Text| (UnavailableReasonView::RequiresCaptureLevel {
            level: name,
            detail,
        }).sentence() == #[trigger] (detail + a + name + b),
{
    assert((UnavailableReasonView::NoPricingForModel { model_id: name }).sentence()
        == "No price is configured for model `"@ + name + "`."@);
    assert((UnavailableReasonView::SubscriptionBilled { plan: name }).sentence()
        == "Billed under the "@ + name + " subscription, not per token."@);
    assert((UnavailableReasonView::RequiresCaptureLevel { level: name, detail }).sentence()
        == detail + " Enable "@ + name + " to measure this."@);
}

/// Where nothing was measured, the reason is that of the first part.
pub proof fn law_the_first_reason_is_given(parts: Seq<Measured<u64>>)
    requires
        parts.len() > 0,
        parts[0]@.accuracy is Unavailable,
        forall|i: int| 0 <= i < parts.len() ==> parts[i].value.is_none(),
    ensures
        sum_of(parts).accuracy == parts[0]@.accuracy,
{
    count_of_none(parts);
}

/// A total of measured parts is as certain as the least certain of them, and one
/// of them is as uncertain as it.
pub proof fn law_a_complete_total_is_as_certain_as_its_weakest_part(parts: Seq<Measured<u64>>)
    requires
        0 < parts.len() <= u32::MAX,
        forall|i: int|
            #![trigger parts[i]]
            0 <= i < parts.len() ==> parts[i].value.is_some() && parts[i].wf(),
    ensures
        exists|i: int|
            0 <= i < parts.len() && sum_of(parts).accuracy.kind() == (
            #[trigger] parts[i])@.accuracy.kind(),
        forall|i: int|
            0 <= i < parts.len() ==> kind_strength(sum_of(parts).accuracy.kind()) <= kind_strength(
                (#[trigger] parts[i])@.accuracy.kind(),
            ),
{
    law_complete_total_carries_the_weakest(parts);
    weakest_at_in_range(parts);
    let w = weakest_at(parts);
    assert(parts[w]@.accuracy.kind() == sum_of(parts).accuracy.kind());
    assert forall|i: int| 0 <= i < parts.len() implies kind_strength(
        sum_of(parts).accuracy.kind(),
    ) <= kind_strength((#[trigger] parts[i])@.accuracy.kind()) by {
        law_total_no_more_certain_than_a_part(parts, i);
    }
}

/// What an optional value from a source is.
pub open spec fn classified<T>(
    value: Option<T>,
    source: MeasurementSource,
    absent: UnavailableReason,
    m: Measured<T>,
) -> bool {
    &&& m.value == value
    &&& value.is_none() ==> m.accuracy == (Accuracy::Unavailable { reason: absent })
    &&& value.is_some() ==> m.accuracy@.kind() == source_kind(source)
}

/// A value that is there is as certain as its source, and one that is not is
/// unavailable for the reason given, never zero.
pub proof fn law_an_absent_value_is_never_zero<T>(
    value: Option<T>,
    source: MeasurementSource,
    absent: UnavailableReason,
    m: Measured<T>,
)
    requires
        classified(value, source, absent, m),
    ensures
        m.value == value,
        value.is_none() ==> m.accuracy == (Accuracy::Unavailable { reason: absent }),
        value.is_some() && source == MeasurementSource::ProviderReported ==> m.accuracy is Exact,
        value.is_some() && source == MeasurementSource::ApplicationTelemetry
            ==> m.accuracy is Calculated,
        value.is_some() && source == MeasurementSource::Estimated ==> m.accuracy is Estimated,
{
}

/// A measured value is seen by the contracts as it is: its value, its certainty,
/// and the source or the reason of that.
pub proof fn law_a_measured_value_is_seen_as_it_is<T>(m: Measured<T>)
    ensures
        m@.value == m.value,
        m@.accuracy == m.accuracy@,
        m.accuracy is Exact <==> m.accuracy@ is Exact,
        m.accuracy is Calculated <==> m.accuracy@ is Calculated,
        m.accuracy is Estimated <==> m.accuracy@ is Estimated,
        m.accuracy is Partial <==> m.accuracy@ is Partial,
        m.accuracy is Unavailable <==> m.accuracy@ is Unavailable,
        m.accuracy is Partial ==> m.accuracy@->measured == m.accuracy->measured
            && m.accuracy@->total == m.accuracy->total && m.accuracy@->Partial_reason
            == m.accuracy->Partial_reason@,
        m.accuracy is Unavailable ==> m.accuracy@->Unavailable_reason
            == m.accuracy->Unavailable_reason@,
{
}

} // verus!
