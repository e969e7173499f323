//! The statistic value model: a tagged union over three value kinds
//! (`Int`, `Float`, `AvgRate`), each carrying the same five numeric fields.
//!
//! Floating-point values are carried as IEEE-754 bit patterns (`u64`): this
//! layer stores and returns them unchanged and never computes on them; the
//! unverified adapter converts to and from `f64` at the storage boundary.

use vstd::prelude::*;

verus! {

/// The five numeric fields of an integer-kind statistic.
#[derive(Clone, Copy, PartialEq, Eq, Debug)]
pub struct IntPayload {
    pub value: i64,
    /// Defaulted to zero when absent at write time.
    pub default_value: Option<i64>,
    pub min_value: Option<i64>,
    pub max_value: Option<i64>,
    pub max_change: Option<i64>,
}

/// The five numeric fields of a floating-kind statistic, as bit patterns.
#[derive(Clone, Copy, PartialEq, Eq, Debug)]
pub struct FloatPayload {
    pub value: u64,
    /// Defaulted to the zero bit pattern when absent at write time.
    pub default_value: Option<u64>,
    pub min_value: Option<u64>,
    pub max_value: Option<u64>,
    pub max_change: Option<u64>,
}

/// The kind-specific payload of a statistic. The value kind is implied by
/// the variant; `Float` and `AvgRate` share one payload shape and differ
/// only in meaning and in whether the statistic's `window` applies.
#[derive(Clone, Copy, PartialEq, Eq, Debug)]
pub enum FieldValue {
    Int(IntPayload),
    Float(FloatPayload),
    AvgRate(FloatPayload),
}

/// One statistic: identity, unique key, optional averaging window (only
/// meaningful for the `AvgRate` kind, as a bit pattern), increment-only
/// policy flag, and the kind-specific payload.
#[derive(Clone, PartialEq, Eq, Debug)]
pub struct Statistic {
    pub id: i64,
    pub key: String,
    pub window: Option<u64>,
    pub increment_only: bool,
    pub values: FieldValue,
}

/// The mathematical value of a [`Statistic`]: the key as a character
/// sequence, everything else as plain data.
#[verifier::ext_equal]
pub struct StatView {
    pub id: i64,
    pub key: Seq<char>,
    pub window: Option<u64>,
    pub increment_only: bool,
    pub values: FieldValue,
}

impl View for Statistic {
    type V = StatView;

    open spec fn view(&self) -> StatView {
        StatView {
            id: self.id,
            key: self.key@,
            window: self.window,
            increment_only: self.increment_only,
            values: self.values,
        }
    }
}

/// The views of a sequence of statistics.
pub open spec fn stat_views(s: Seq<Statistic>) -> Seq<StatView> {
    s.map_values(|x: Statistic| x@)
}

impl Statistic {
    /// Builds a statistic from its parts; the value kind is implied by the
    /// payload variant supplied.
    pub fn new(
        id: i64,
        key: String,
        window: Option<u64>,
        increment_only: bool,
        values: FieldValue,
    ) -> (r: Statistic)
        ensures
            r@ == (StatView { id, key: key@, window, increment_only, values }),
    {
        Statistic { id, key, window, increment_only, values }
    }
}

/// A payload with an absent `default_value` is stored with a zero default;
/// everything else is kept as given.
pub open spec fn normalize_values(v: FieldValue) -> FieldValue {
    match v {
        FieldValue::Int(p) => FieldValue::Int(
            IntPayload {
                default_value: Some(if p.default_value is Some {
                    p.default_value->0
                } else {
                    0
                }),
                ..p
            },
        ),
        FieldValue::Float(p) => FieldValue::Float(normalize_float_payload(p)),
        FieldValue::AvgRate(p) => FieldValue::AvgRate(normalize_float_payload(p)),
    }
}

pub open spec fn normalize_float_payload(p: FloatPayload) -> FloatPayload {
    FloatPayload {
        default_value: Some(if p.default_value is Some {
            p.default_value->0
        } else {
            0
        }),
        ..p
    }
}

/// What a statistic looks like after one write/read round trip through
/// storage: the default value is made explicit, and the window survives
/// only for the kinds stored in the floating child table (`Int` statistics
/// never expose one, since the integer child table has no window column).
pub open spec fn normalize(s: StatView) -> StatView {
    StatView {
        window: if s.values is Int {
            None
        } else {
            s.window
        },
        values: normalize_values(s.values),
        ..s
    }
}

/// Normalization keeps a statistic's identity, key, increment-only flag and
/// value kind, forces the window of an `Int` statistic to absent, keeps the
/// window of the two floating kinds unchanged, and touches no payload field
/// other than `default_value`.
pub proof fn lemma_normalize_preserves_identity(s: StatView)
    ensures
        normalize(s).id == s.id,
        normalize(s).key == s.key,
        normalize(s).increment_only == s.increment_only,
        normalize(s).values is Int <==> s.values is Int,
        normalize(s).values is Float <==> s.values is Float,
        normalize(s).values is AvgRate <==> s.values is AvgRate,
        normalize(s).window == (if s.values is Int {
            Option::<u64>::None
        } else {
            s.window
        }),
{
}

} // verus!
