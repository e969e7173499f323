//! The normalized row representation of statistics and the codec between
//! rows and typed statistics.
//!
//! Storage keeps one generic parent row per statistic (identity, key,
//! kind tag, increment-only flag, and a reserved `changed` flag) plus
//! exactly one child row in the table matching the kind tag: an integer
//! child for `Int`, a floating child — which alone carries the window —
//! for `Float` and `AvgRate`. The read path joins each child row to its
//! parent by id and rebuilds the typed statistic; an unrecognized kind
//! tag on a joined floating row is a data-integrity failure, not a crash.

use vstd::prelude::*;

use crate::stats::{FieldValue, FloatPayload, IntPayload, StatView, Statistic};

verus! {

/// One row of the generic parent table.
#[derive(Clone, PartialEq, Eq, Debug)]
pub struct StatRow {
    pub id: i64,
    pub key: String,
    /// The kind tag text: `"INT"`, `"FLOAT"` or `"AVGRATE"` when intact.
    pub kind: String,
    pub increment_only: bool,
    /// Reserved for future dirty tracking; always written as `false`.
    pub changed: bool,
}

/// The mathematical value of a [`StatRow`].
#[verifier::ext_equal]
pub struct StatRowView {
    pub id: i64,
    pub key: Seq<char>,
    pub kind: Seq<char>,
    pub increment_only: bool,
    pub changed: bool,
}

impl View for StatRow {
    type V = StatRowView;

    open spec fn view(&self) -> StatRowView {
        StatRowView {
            id: self.id,
            key: self.key@,
            kind: self.kind@,
            increment_only: self.increment_only,
            changed: self.changed,
        }
    }
}

/// The views of a sequence of parent rows.
pub open spec fn stat_row_views(s: Seq<StatRow>) -> Seq<StatRowView> {
    s.map_values(|r: StatRow| r@)
}

/// One row of the integer child table.
#[derive(Clone, Copy, PartialEq, Eq, Debug)]
pub struct IntRow {
    pub id: i64,
    pub value: i64,
    pub default_value: i64,
    pub min_value: Option<i64>,
    pub max_value: Option<i64>,
    pub max_change: Option<i64>,
}

/// One row of the floating child table; all values are bit patterns.
#[derive(Clone, Copy, PartialEq, Eq, Debug)]
pub struct FloatRow {
    pub id: i64,
    pub value: u64,
    pub default_value: u64,
    pub min_value: Option<u64>,
    pub max_value: Option<u64>,
    pub max_change: Option<u64>,
    pub window: Option<u64>,
}

/// The single child row of a statistic, in the table its kind selects.
#[derive(Clone, Copy, PartialEq, Eq, Debug)]
pub enum ChildRow {
    Int(IntRow),
    Float(FloatRow),
}

/// The kind tag text written for a payload variant.
pub open spec fn kind_tag_of(v: FieldValue) -> Seq<char> {
    match v {
        FieldValue::Int(_) => "INT"@,
        FieldValue::Float(_) => "FLOAT"@,
        FieldValue::AvgRate(_) => "AVGRATE"@,
    }
}

/// The parent row written for a statistic: the kind tag is derived from
/// the payload variant and the reserved `changed` flag is forced off.
pub open spec fn parent_row_of(s: StatView) -> StatRowView {
    StatRowView {
        id: s.id,
        key: s.key,
        kind: kind_tag_of(s.values),
        increment_only: s.increment_only,
        changed: false,
    }
}

/// The integer child row written for an `Int` statistic: an omitted
/// default value is stored as zero.
pub open spec fn int_child_of(s: StatView) -> IntRow {
    let p = s.values->Int_0;
    IntRow {
        id: s.id,
        value: p.value,
        default_value: if p.default_value is Some {
            p.default_value->0
        } else {
            0
        },
        min_value: p.min_value,
        max_value: p.max_value,
        max_change: p.max_change,
    }
}

/// The floating payload of a `Float` or `AvgRate` statistic.
pub open spec fn float_payload_of(v: FieldValue) -> FloatPayload {
    match v {
        FieldValue::Float(p) => p,
        FieldValue::AvgRate(p) => p,
        FieldValue::Int(_) => arbitrary(),
    }
}

/// The floating child row written for a `Float` or `AvgRate` statistic:
/// an omitted default value is stored as the zero bit pattern, and the
/// statistic's window — present or not — is stored alongside.
pub open spec fn float_child_of(s: StatView) -> FloatRow {
    let p = float_payload_of(s.values);
    FloatRow {
        id: s.id,
        value: p.value,
        default_value: if p.default_value is Some {
            p.default_value->0
        } else {
            0
        },
        min_value: p.min_value,
        max_value: p.max_value,
        max_change: p.max_change,
        window: s.window,
    }
}

/// The child row written for a statistic, in the table its kind selects.
pub open spec fn child_row_of(s: StatView) -> ChildRow {
    if s.values is Int {
        ChildRow::Int(int_child_of(s))
    } else {
        ChildRow::Float(float_child_of(s))
    }
}

/// Encodes one statistic as the two rows the write path inserts.
pub fn encode_stat(s: &Statistic) -> (r: (StatRow, ChildRow))
    ensures
        r.0@ == parent_row_of(s@),
        r.1 == child_row_of(s@),
{
    let kind: String = match &s.values {
        FieldValue::Int(_) => String::from_str("INT"),
        FieldValue::Float(_) => String::from_str("FLOAT"),
        FieldValue::AvgRate(_) => String::from_str("AVGRATE"),
    };
    let parent = StatRow {
        id: s.id,
        key: s.key.clone(),
        kind,
        increment_only: s.increment_only,
        changed: false,
    };
    let child = match &s.values {
        FieldValue::Int(p) => ChildRow::Int(
            IntRow {
                id: s.id,
                value: p.value,
                default_value: match p.default_value {
                    Some(d) => d,
                    None => 0,
                },
                min_value: p.min_value,
                max_value: p.max_value,
                max_change: p.max_change,
            },
        ),
        FieldValue::Float(p) => ChildRow::Float(
            FloatRow {
                id: s.id,
                value: p.value,
                default_value: match p.default_value {
                    Some(d) => d,
                    None => 0,
                },
                min_value: p.min_value,
                max_value: p.max_value,
                max_change: p.max_change,
                window: s.window,
            },
        ),
        FieldValue::AvgRate(p) => ChildRow::Float(
            FloatRow {
                id: s.id,
                value: p.value,
                default_value: match p.default_value {
                    Some(d) => d,
                    None => 0,
                },
                min_value: p.min_value,
                max_value: p.max_value,
                max_change: p.max_change,
                window: s.window,
            },
        ),
    };
    (parent, child)
}

/// The read path met a joined floating row whose parent's kind tag is not
/// a known value kind: the stored data is corrupt for this load.
#[derive(Clone, PartialEq, Eq, Debug)]
pub struct DataIntegrityError {
    /// The unrecognized kind tag as found in the parent row.
    pub kind: String,
}

/// The statistic rebuilt from an integer child row joined to its parent:
/// integer statistics never expose a window.
pub open spec fn int_stat_of(p: StatRowView, r: IntRow) -> StatView {
    StatView {
        id: p.id,
        key: p.key,
        window: None,
        increment_only: p.increment_only,
        values: FieldValue::Int(
            IntPayload {
                value: r.value,
                default_value: Some(r.default_value),
                min_value: r.min_value,
                max_value: r.max_value,
                max_change: r.max_change,
            },
        ),
    }
}

/// Whether a parent row's kind tag names one of the two floating kinds.
pub open spec fn float_tag_known(p: StatRowView) -> bool {
    p.kind == "FLOAT"@ || p.kind == "AVGRATE"@
}

/// The statistic rebuilt from a floating child row joined to its parent,
/// branching on the parent's kind tag; meaningful when the tag is known.
pub open spec fn float_stat_of(p: StatRowView, r: FloatRow) -> StatView {
    let pay = FloatPayload {
        value: r.value,
        default_value: Some(r.default_value),
        min_value: r.min_value,
        max_value: r.max_value,
        max_change: r.max_change,
    };
    StatView {
        id: p.id,
        key: p.key,
        window: r.window,
        increment_only: p.increment_only,
        values: if p.kind == "FLOAT"@ {
            FieldValue::Float(pay)
        } else {
            FieldValue::AvgRate(pay)
        },
    }
}

/// Whether a stored string equals a literal tag.
fn string_eq_literal(s: &String, lit: &str) -> (r: bool)
    ensures
        r == (s@ == lit@),
{
    let other = String::from_str(lit);
    *s == other
}

/// Rebuilds one statistic from an integer child row and its parent row.
pub fn decode_int_stat(parent: &StatRow, row: &IntRow) -> (r: Statistic)
    ensures
        r@ == int_stat_of(parent@, *row),
{
    Statistic {
        id: parent.id,
        key: parent.key.clone(),
        window: None,
        increment_only: parent.increment_only,
        values: FieldValue::Int(
            IntPayload {
                value: row.value,
                default_value: Some(row.default_value),
                min_value: row.min_value,
                max_value: row.max_value,
                max_change: row.max_change,
            },
        ),
    }
}

/// Rebuilds one statistic from a floating child row and its parent row,
/// failing on an unrecognized kind tag.
pub fn decode_float_stat(parent: &StatRow, row: &FloatRow) -> (r: Result<
    Statistic,
    DataIntegrityError,
>)
    ensures
        r is Ok <==> float_tag_known(parent@),
        r is Ok ==> r->Ok_0@ == float_stat_of(parent@, *row),
        r is Err ==> r->Err_0.kind@ == parent@.kind,
{
    let pay = FloatPayload {
        value: row.value,
        default_value: Some(row.default_value),
        min_value: row.min_value,
        max_value: row.max_value,
        max_change: row.max_change,
    };
    if string_eq_literal(&parent.kind, "FLOAT") {
        Ok(
            Statistic {
                id: parent.id,
                key: parent.key.clone(),
                window: row.window,
                increment_only: parent.increment_only,
                values: FieldValue::Float(pay),
            },
        )
    } else if string_eq_literal(&parent.kind, "AVGRATE") {
        Ok(
            Statistic {
                id: parent.id,
                key: parent.key.clone(),
                window: row.window,
                increment_only: parent.increment_only,
                values: FieldValue::AvgRate(pay),
            },
        )
    } else {
        Err(DataIntegrityError { kind: parent.kind.clone() })
    }
}

/// Position of the first parent row carrying the given id, scanning from
/// position `i` on.
pub open spec fn first_match_from(parents: Seq<StatRowView>, id: i64, i: int) -> Option<int>
    decreases parents.len() - i,
{
    if i < 0 || i >= parents.len() {
        None
    } else if parents[i].id == id {
        Some(i)
    } else {
        first_match_from(parents, id, i + 1)
    }
}

/// The first parent row carrying the given id, if any: the row a child
/// row joins to.
pub open spec fn parent_for(parents: Seq<StatRowView>, id: i64) -> Option<StatRowView> {
    match first_match_from(parents, id, 0) {
        Some(j) => Some(parents[j]),
        None => None,
    }
}

/// The statistics read off the integer child table, each child joined to
/// its parent row by id; a child without a parent joins to nothing and is
/// dropped, as an inner join drops it.
pub open spec fn join_ints(parents: Seq<StatRowView>, ints: Seq<IntRow>) -> Seq<StatView>
    decreases ints.len(),
{
    if ints.len() == 0 {
        Seq::<StatView>::empty()
    } else {
        let prev = join_ints(parents, ints.drop_last());
        match parent_for(parents, ints.last().id) {
            Some(p) => prev.push(int_stat_of(p, ints.last())),
            None => prev,
        }
    }
}

/// Whether one floating child row either joins to no parent or joins to a
/// parent with a recognized floating kind tag.
pub open spec fn float_row_tag_known(parents: Seq<StatRowView>, r: FloatRow) -> bool {
    match parent_for(parents, r.id) {
        Some(p) => float_tag_known(p),
        None => true,
    }
}

/// Whether every joined floating child row meets a recognized kind tag:
/// exactly when the read path succeeds.
pub open spec fn float_tags_known(parents: Seq<StatRowView>, floats: Seq<FloatRow>) -> bool {
    forall|i: int| 0 <= i < floats.len() ==> float_row_tag_known(parents, #[trigger] floats[i])
}

/// The statistics read off the floating child table, each child joined to
/// its parent row by id; meaningful when every joined tag is recognized.
pub open spec fn join_floats(parents: Seq<StatRowView>, floats: Seq<FloatRow>) -> Seq<StatView>
    decreases floats.len(),
{
    if floats.len() == 0 {
        Seq::<StatView>::empty()
    } else {
        let prev = join_floats(parents, floats.drop_last());
        match parent_for(parents, floats.last().id) {
            Some(p) => prev.push(float_stat_of(p, floats.last())),
            None => prev,
        }
    }
}

/// Finds the position of the first parent row carrying the given id.
fn find_parent(parents: &Vec<StatRow>, id: i64) -> (r: Option<usize>)
    ensures
        match r {
            Some(j) => j < parents.len() && first_match_from(stat_row_views(parents@), id, 0)
                == Some(j as int),
            None => first_match_from(stat_row_views(parents@), id, 0) is None,
        },
{
    let ghost pv = stat_row_views(parents@);
    let mut i: usize = 0;
    while i < parents.len()
        invariant
            0 <= i <= parents.len(),
            pv == stat_row_views(parents@),
            pv.len() == parents.len(),
            first_match_from(pv, id, 0) == first_match_from(pv, id, i as int),
        decreases parents.len() - i,
    {
        if parents[i].id == id {
            return Some(i);
        }
        i = i + 1;
    }
    None
}

/// Rebuilds the full statistic sequence from the three tables as stored:
/// first every integer child row joined to its parent, then every
/// floating child row joined to its parent, each in table order. Fails —
/// touching nothing — exactly when some joined floating row meets an
/// unrecognized kind tag.
pub fn stats_from_rows(parents: &Vec<StatRow>, ints: &Vec<IntRow>, floats: &Vec<FloatRow>) -> (r:
    Result<Vec<Statistic>, DataIntegrityError>)
    ensures
        r is Ok <==> float_tags_known(stat_row_views(parents@), floats@),
        r is Ok ==> crate::stats::stat_views(r->Ok_0@) == join_ints(
            stat_row_views(parents@),
            ints@,
        ) + join_floats(stat_row_views(parents@), floats@),
{
    let ghost pv = stat_row_views(parents@);
    let mut out: Vec<Statistic> = Vec::new();
    let mut i: usize = 0;
    while i < ints.len()
        invariant
            0 <= i <= ints.len(),
            pv == stat_row_views(parents@),
            crate::stats::stat_views(out@) == join_ints(pv, ints@.subrange(0, i as int)),
        decreases ints.len() - i,
    {
        let ghost pre = out@;
        let row = ints[i];
        match find_parent(parents, row.id) {
            Some(j) => {
                let st = decode_int_stat(&parents[j], &row);
                out.push(st);
                proof {
                    assert(crate::stats::stat_views(out@) =~= crate::stats::stat_views(pre).push(
                        st@,
                    ));
                }
            },
            None => {},
        }
        proof {
            let sub = ints@.subrange(0, i as int + 1);
            assert(sub.drop_last() =~= ints@.subrange(0, i as int));
            assert(sub.last() == ints@[i as int]);
        }
        i = i + 1;
    }
    proof {
        assert(ints@.subrange(0, ints@.len() as int) =~= ints@);
    }
    let mut k: usize = 0;
    while k < floats.len()
        invariant
            0 <= k <= floats.len(),
            pv == stat_row_views(parents@),
            crate::stats::stat_views(out@) == join_ints(pv, ints@) + join_floats(
                pv,
                floats@.subrange(0, k as int),
            ),
            forall|m: int| 0 <= m < k ==> float_row_tag_known(pv, #[trigger] floats@[m]),
        decreases floats.len() - k,
    {
        let ghost pre = out@;
        let row = floats[k];
        match find_parent(parents, row.id) {
            Some(j) => {
                match decode_float_stat(&parents[j], &row) {
                    Ok(st) => {
                        out.push(st);
                        proof {
                            assert(crate::stats::stat_views(out@) =~= crate::stats::stat_views(
                                pre,
                            ).push(st@));
                        }
                    },
                    Err(e) => {
                        proof {
                            assert(!float_row_tag_known(pv, floats@[k as int]));
                        }
                        return Err(e);
                    },
                }
            },
            None => {},
        }
        proof {
            let sub = floats@.subrange(0, k as int + 1);
            assert(sub.drop_last() =~= floats@.subrange(0, k as int));
            assert(sub.last() == floats@[k as int]);
        }
        k = k + 1;
    }
    proof {
        assert(floats@.subrange(0, floats@.len() as int) =~= floats@);
    }
    Ok(out)
}

} // verus!
