//! The statistic store model and its two operations: atomic full replace
//! and load, plus the sync-state check.
//!
//! [`StatsDb`] mirrors the statistic tables of the per-user database: the
//! generic parent table, the two kind-specific child tables, and the
//! sync-state flag row. `replace_all` is the only mutation primitive — a
//! wholesale replacement of the statistic set inside one transaction — and
//! `load_all` reconstructs the typed statistics from the rows. The
//! unverified storage adapter executes the same steps as SQL against the
//! embedded database; this model is where their meaning is stated and
//! proved.

use vstd::prelude::*;

use crate::rows::{
    float_child_of, float_stat_of, float_tag_known, float_tags_known, int_child_of, int_stat_of,
    join_floats, join_ints, parent_for, parent_row_of, first_match_from, stat_row_views,
    stats_from_rows, ChildRow, DataIntegrityError, FloatRow, IntRow, StatRow, StatRowView,
};
use crate::stats::{normalize, stat_views, StatView, Statistic};
use crate::sync_flag::{interpret_sync_flag, sync_flag_set};

verus! {

/// A storage-level failure of the write path: the parent table's
/// uniqueness constraints (id primary key, unique key) rejected an insert,
/// so the surrounding transaction rolled back and nothing was written.
#[derive(Clone, Copy, PartialEq, Eq, Debug)]
pub struct StorageError {}

/// The in-memory model of the statistic tables: the generic parent table,
/// the two kind-specific child tables, and the sync-state flag row (its
/// text value, or `None` when the row is absent).
///
/// The fields are public because storage itself can hold anything the
/// schema admits — the read path is total over every such state.
#[derive(Clone, PartialEq, Eq, Debug)]
pub struct StatsDb {
    pub statistic: Vec<StatRow>,
    pub int_statistic: Vec<IntRow>,
    pub float_statistic: Vec<FloatRow>,
    pub sync_flag: Option<String>,
}

/// The mathematical value of a [`StatsDb`].
#[verifier::ext_equal]
pub struct StoreView {
    pub statistic: Seq<StatRowView>,
    pub int_statistic: Seq<IntRow>,
    pub float_statistic: Seq<FloatRow>,
    pub sync_flag: Option<Seq<char>>,
}

impl View for StatsDb {
    type V = StoreView;

    open spec fn view(&self) -> StoreView {
        StoreView {
            statistic: stat_row_views(self.statistic@),
            int_statistic: self.int_statistic@,
            float_statistic: self.float_statistic@,
            sync_flag: match self.sync_flag {
                Some(s) => Some(s@),
                None => None,
            },
        }
    }
}

/// No two statistics share an id: the parent table's primary key.
pub open spec fn distinct_ids(stats: Seq<StatView>) -> bool {
    forall|a: int, b: int|
        #![trigger stats[a], stats[b]]
        0 <= a < b < stats.len() ==> stats[a].id != stats[b].id
}

/// No two statistics share a key: the parent table's unique constraint.
pub open spec fn distinct_keys(stats: Seq<StatView>) -> bool {
    forall|a: int, b: int|
        #![trigger stats[a], stats[b]]
        0 <= a < b < stats.len() ==> stats[a].key != stats[b].key
}

/// A statistic set the parent table's constraints accept.
pub open spec fn valid_input(stats: Seq<StatView>) -> bool {
    distinct_ids(stats) && distinct_keys(stats)
}

/// The parent rows written for a statistic set, in input order.
pub open spec fn parent_rows(stats: Seq<StatView>) -> Seq<StatRowView> {
    stats.map_values(|s: StatView| parent_row_of(s))
}

/// The integer child rows written for a statistic set: one per `Int`
/// statistic, in input order.
pub open spec fn int_children(stats: Seq<StatView>) -> Seq<IntRow>
    decreases stats.len(),
{
    if stats.len() == 0 {
        Seq::<IntRow>::empty()
    } else {
        let prev = int_children(stats.drop_last());
        if stats.last().values is Int {
            prev.push(int_child_of(stats.last()))
        } else {
            prev
        }
    }
}

/// The floating child rows written for a statistic set: one per `Float`
/// or `AvgRate` statistic, in input order.
pub open spec fn float_children(stats: Seq<StatView>) -> Seq<FloatRow>
    decreases stats.len(),
{
    if stats.len() == 0 {
        Seq::<FloatRow>::empty()
    } else {
        let prev = float_children(stats.drop_last());
        if stats.last().values is Int {
            prev
        } else {
            prev.push(float_child_of(stats.last()))
        }
    }
}

/// The store state after a successful full replace: exactly the rows of
/// the new set, and the sync flag recorded as synced.
pub open spec fn replaced(stats: Seq<StatView>) -> StoreView {
    StoreView {
        statistic: parent_rows(stats),
        int_statistic: int_children(stats),
        float_statistic: float_children(stats),
        sync_flag: Some("1"@),
    }
}

/// The store state after a replace attempt: the new state when the
/// constraints accept the set, the old state — untouched — when they
/// reject it and the transaction rolls back.
pub open spec fn replace_result(pre: StoreView, stats: Seq<StatView>) -> StoreView {
    if valid_input(stats) {
        replaced(stats)
    } else {
        pre
    }
}

/// A freshly created database: no rows, no sync-state flag.
pub open spec fn empty_store() -> StoreView {
    StoreView {
        statistic: Seq::<StatRowView>::empty(),
        int_statistic: Seq::<IntRow>::empty(),
        float_statistic: Seq::<FloatRow>::empty(),
        sync_flag: None,
    }
}

/// What a successful load returns for a store state: the integer child
/// rows joined to their parents, then the floating ones, in table order.
pub open spec fn loaded(s: StoreView) -> Seq<StatView> {
    join_ints(s.statistic, s.int_statistic) + join_floats(s.statistic, s.float_statistic)
}

/// Whether some parent row carries the given id.
fn contains_id(rows: &Vec<StatRow>, id: i64) -> (r: bool)
    ensures
        r == (exists|j: int| 0 <= j < rows@.len() && (#[trigger] rows@[j]).id == id),
{
    let mut i: usize = 0;
    while i < rows.len()
        invariant
            0 <= i <= rows.len(),
            forall|j: int| 0 <= j < i ==> (#[trigger] rows@[j]).id != id,
        decreases rows.len() - i,
    {
        if rows[i].id == id {
            return true;
        }
        i = i + 1;
    }
    false
}

/// Whether two strings hold the same characters.
fn string_eq(a: &String, b: &String) -> (r: bool)
    ensures
        r == (a@ == b@),
{
    *a == *b
}

/// Whether some parent row carries the given key.
fn contains_key(rows: &Vec<StatRow>, key: &String) -> (r: bool)
    ensures
        r == (exists|j: int| 0 <= j < rows@.len() && (#[trigger] rows@[j]).key@ == key@),
{
    let mut i: usize = 0;
    while i < rows.len()
        invariant
            0 <= i <= rows.len(),
            forall|j: int| 0 <= j < i ==> (#[trigger] rows@[j]).key@ != key@,
        decreases rows.len() - i,
    {
        if string_eq(&rows[i].key, key) {
            return true;
        }
        i = i + 1;
    }
    false
}

impl StatsDb {
    /// A freshly created per-user database: empty tables, never synced.
    pub fn new() -> (r: StatsDb)
        ensures
            r@ == empty_store(),
    {
        let r = StatsDb {
            statistic: Vec::new(),
            int_statistic: Vec::new(),
            float_statistic: Vec::new(),
            sync_flag: None,
        };
        proof {
            assert(r@ =~= empty_store());
        }
        r
    }

    /// Atomically replaces the whole statistic set and records sync
    /// completion, mirroring one storage transaction: delete every row of
    /// the three statistic tables, insert one parent row and one child
    /// row per statistic in input order (an omitted default value becomes
    /// zero, the reserved `changed` flag is forced off), upsert the
    /// sync-state flag to synced, and commit. When the parent table's
    /// uniqueness constraints reject the set — a repeated id or key —
    /// nothing commits: the store is left exactly as it was, the previous
    /// set and sync flag intact.
    pub fn replace_all(&mut self, stats: &Vec<Statistic>) -> (r: Result<(), StorageError>)
        ensures
            r is Ok <==> valid_input(stat_views(stats@)),
            final(self)@ == replace_result(old(self)@, stat_views(stats@)),
    {
        let ghost sv = stat_views(stats@);
        proof {
            assert(sv.len() == stats@.len());
        }
        let mut parents: Vec<StatRow> = Vec::new();
        let mut ints: Vec<IntRow> = Vec::new();
        let mut floats: Vec<FloatRow> = Vec::new();
        let mut i: usize = 0;
        while i < stats.len()
            invariant
                0 <= i <= stats@.len(),
                sv == stat_views(stats@),
                sv.len() == stats@.len(),
                parents@.len() == i,
                stat_row_views(parents@) == parent_rows(sv.subrange(0, i as int)),
                ints@ == int_children(sv.subrange(0, i as int)),
                floats@ == float_children(sv.subrange(0, i as int)),
                forall|a: int, b: int|
                    #![trigger sv[a], sv[b]]
                    0 <= a < b < i ==> sv[a].id != sv[b].id && sv[a].key != sv[b].key,
            decreases stats@.len() - i,
        {
            let s = &stats[i];
            proof {
                assert(s@ == sv[i as int]);
            }
            if contains_id(&parents, s.id) {
                proof {
                    let j = choose|j: int|
                        0 <= j < parents@.len() && (#[trigger] parents@[j]).id == s.id;
                    assert(stat_row_views(parents@)[j] == parents@[j]@);
                    assert(parent_rows(sv.subrange(0, i as int))[j] == parent_row_of(
                        sv.subrange(0, i as int)[j],
                    ));
                    assert(sv[j].id == sv[i as int].id);
                    assert(!distinct_ids(sv));
                }
                return Err(StorageError {  });
            }
            if contains_key(&parents, &s.key) {
                proof {
                    let j = choose|j: int|
                        0 <= j < parents@.len() && (#[trigger] parents@[j]).key@ == s.key@;
                    assert(stat_row_views(parents@)[j] == parents@[j]@);
                    assert(parent_rows(sv.subrange(0, i as int))[j] == parent_row_of(
                        sv.subrange(0, i as int)[j],
                    ));
                    assert(sv[j].key == sv[i as int].key);
                    assert(!distinct_keys(sv));
                }
                return Err(StorageError {  });
            }
            proof {
                assert forall|a: int| 0 <= a < i implies sv[a].id != sv[i as int].id && sv[a].key
                    != sv[i as int].key by {
                    assert(stat_row_views(parents@)[a] == parents@[a]@);
                    assert(parent_rows(sv.subrange(0, i as int))[a] == parent_row_of(
                        sv.subrange(0, i as int)[a],
                    ));
                    assert(sv.subrange(0, i as int)[a] == sv[a]);
                }
            }
            let (p, c) = crate::rows::encode_stat(s);
            let ghost parents_pre = parents@;
            let ghost ints_pre = ints@;
            let ghost floats_pre = floats@;
            parents.push(p);
            match c {
                ChildRow::Int(row) => ints.push(row),
                ChildRow::Float(row) => floats.push(row),
            }
            proof {
                let sub1 = sv.subrange(0, i as int + 1);
                assert(sub1.drop_last() =~= sv.subrange(0, i as int));
                assert(sub1.last() == sv[i as int]);
                assert forall|t: int| 0 <= t < parents@.len() implies stat_row_views(parents@)[t]
                    == parent_rows(sub1)[t] by {
                    if t < i {
                        assert(stat_row_views(parents_pre)[t] == parent_rows(
                            sv.subrange(0, i as int),
                        )[t]);
                        assert(parents@[t] == parents_pre[t]);
                        assert(sub1[t] == sv.subrange(0, i as int)[t]);
                    } else {
                        assert(parents@[t] == p);
                    }
                }
                assert(stat_row_views(parents@) =~= parent_rows(sub1));
                if sv[i as int].values is Int {
                    assert(ints@ == int_children(sub1));
                    assert(floats@ == float_children(sub1));
                } else {
                    assert(ints@ == int_children(sub1));
                    assert(floats@ == float_children(sub1));
                }
            }
            i = i + 1;
        }
        proof {
            assert(sv.subrange(0, sv.len() as int) =~= sv);
            assert(distinct_ids(sv));
            assert(distinct_keys(sv));
        }
        self.statistic = parents;
        self.int_statistic = ints;
        self.float_statistic = floats;
        self.sync_flag = Some(String::from_str("1"));
        proof {
            assert(self@ =~= replaced(sv));
        }
        Ok(())
    }

    /// Loads every stored statistic, rebuilding the typed payload from
    /// the child row and the parent's kind tag: the integer statistics in
    /// table order, then the floating ones. Fails exactly when some
    /// joined floating row meets an unrecognized kind tag — corrupt data,
    /// reported rather than crashed on.
    pub fn load_all(&self) -> (r: Result<Vec<Statistic>, DataIntegrityError>)
        ensures
            r is Ok <==> float_tags_known(self@.statistic, self@.float_statistic),
            r is Ok ==> stat_views(r->Ok_0@) == loaded(self@),
    {
        stats_from_rows(&self.statistic, &self.int_statistic, &self.float_statistic)
    }

    /// Whether a full statistics sync has ever completed, read off the
    /// sync-state flag. Never fails: an absent or unparseable flag reads
    /// as "not synced".
    pub fn is_synced(&self) -> (r: bool)
        ensures
            r == sync_flag_set(self@.sync_flag),
    {
        interpret_sync_flag(self.sync_flag.as_ref())
    }
}

/// The statistics of the integer kind, in input order, as a round trip
/// returns them.
pub open spec fn normalized_ints(stats: Seq<StatView>) -> Seq<StatView>
    decreases stats.len(),
{
    if stats.len() == 0 {
        Seq::<StatView>::empty()
    } else {
        let prev = normalized_ints(stats.drop_last());
        if stats.last().values is Int {
            prev.push(normalize(stats.last()))
        } else {
            prev
        }
    }
}

/// The statistics of the two floating kinds, in input order, as a round
/// trip returns them.
pub open spec fn normalized_floats(stats: Seq<StatView>) -> Seq<StatView>
    decreases stats.len(),
{
    if stats.len() == 0 {
        Seq::<StatView>::empty()
    } else {
        let prev = normalized_floats(stats.drop_last());
        if stats.last().values is Int {
            prev
        } else {
            prev.push(normalize(stats.last()))
        }
    }
}

proof fn lemma_first_match_unique(parents: Seq<StatRowView>, id: i64, k: int, i: int)
    requires
        0 <= i <= k < parents.len(),
        parents[k].id == id,
        forall|j: int| 0 <= j < parents.len() && j != k ==> (#[trigger] parents[j]).id != id,
    ensures
        first_match_from(parents, id, i) == Some(k),
    decreases parents.len() - i,
{
    if i < k {
        lemma_first_match_unique(parents, id, k, i + 1);
    }
}

/// With distinct ids, each written child row joins back to exactly the
/// parent row written for its statistic.
proof fn lemma_parent_lookup(stats: Seq<StatView>, k: int)
    requires
        distinct_ids(stats),
        0 <= k < stats.len(),
    ensures
        parent_for(parent_rows(stats), stats[k].id) == Some(parent_row_of(stats[k])),
{
    let rows = parent_rows(stats);
    assert(rows[k].id == stats[k].id);
    assert forall|j: int| 0 <= j < rows.len() && j != k implies (#[trigger] rows[j]).id
        != stats[k].id by {
        assert(rows[j] == parent_row_of(stats[j]));
        if j < k {
            assert(stats[j].id != stats[k].id);
        } else {
            assert(stats[k].id != stats[j].id);
        }
    }
    lemma_first_match_unique(rows, stats[k].id, k, 0);
}

/// Writing an `Int` statistic and joining its rows back yields its
/// normalized form.
proof fn lemma_int_roundtrip(s: StatView)
    requires
        s.values is Int,
    ensures
        int_stat_of(parent_row_of(s), int_child_of(s)) == normalize(s),
{
    assert(int_stat_of(parent_row_of(s), int_child_of(s)) =~= normalize(s));
}

/// Writing a `Float` or `AvgRate` statistic and joining its rows back
/// yields its normalized form: the two tags are distinct texts, so the
/// kind — and with it the window — survives the round trip.
proof fn lemma_float_roundtrip(s: StatView)
    requires
        !(s.values is Int),
    ensures
        float_stat_of(parent_row_of(s), float_child_of(s)) == normalize(s),
{
    reveal_strlit("FLOAT");
    reveal_strlit("AVGRATE");
    assert("FLOAT"@.len() == 5);
    assert("AVGRATE"@.len() == 7);
    assert(float_stat_of(parent_row_of(s), float_child_of(s)) =~= normalize(s));
}

proof fn lemma_join_ints_replaced(all: Seq<StatView>, m: int)
    requires
        distinct_ids(all),
        0 <= m <= all.len(),
    ensures
        join_ints(parent_rows(all), int_children(all.subrange(0, m))) == normalized_ints(
            all.subrange(0, m),
        ),
    decreases m,
{
    if m == 0 {
        assert(all.subrange(0, 0) =~= Seq::<StatView>::empty());
    } else {
        lemma_join_ints_replaced(all, m - 1);
        let sub = all.subrange(0, m);
        let sub0 = all.subrange(0, m - 1);
        assert(sub.drop_last() =~= sub0);
        assert(sub.last() == all[m - 1]);
        let s = all[m - 1];
        if s.values is Int {
            let prev = int_children(sub0);
            let c = int_child_of(s);
            assert(int_children(sub) == prev.push(c));
            assert(prev.push(c).drop_last() =~= prev);
            assert(prev.push(c).last() == c);
            lemma_parent_lookup(all, m - 1);
            assert(c.id == s.id);
            lemma_int_roundtrip(s);
        } else {
            assert(int_children(sub) == int_children(sub0));
            assert(normalized_ints(sub) == normalized_ints(sub0));
        }
    }
}

proof fn lemma_join_floats_replaced(all: Seq<StatView>, m: int)
    requires
        distinct_ids(all),
        0 <= m <= all.len(),
    ensures
        join_floats(parent_rows(all), float_children(all.subrange(0, m))) == normalized_floats(
            all.subrange(0, m),
        ),
    decreases m,
{
    if m == 0 {
        assert(all.subrange(0, 0) =~= Seq::<StatView>::empty());
    } else {
        lemma_join_floats_replaced(all, m - 1);
        let sub = all.subrange(0, m);
        let sub0 = all.subrange(0, m - 1);
        assert(sub.drop_last() =~= sub0);
        assert(sub.last() == all[m - 1]);
        let s = all[m - 1];
        if s.values is Int {
            assert(float_children(sub) == float_children(sub0));
            assert(normalized_floats(sub) == normalized_floats(sub0));
        } else {
            let prev = float_children(sub0);
            let c = float_child_of(s);
            assert(float_children(sub) == prev.push(c));
            assert(prev.push(c).drop_last() =~= prev);
            assert(prev.push(c).last() == c);
            lemma_parent_lookup(all, m - 1);
            assert(c.id == s.id);
            lemma_float_roundtrip(s);
        }
    }
}

proof fn lemma_float_tags_replaced(all: Seq<StatView>, m: int)
    requires
        distinct_ids(all),
        0 <= m <= all.len(),
    ensures
        float_tags_known(parent_rows(all), float_children(all.subrange(0, m))),
    decreases m,
{
    if m == 0 {
        assert(all.subrange(0, 0) =~= Seq::<StatView>::empty());
        assert(float_children(all.subrange(0, m)).len() == 0);
    } else {
        lemma_float_tags_replaced(all, m - 1);
        let sub = all.subrange(0, m);
        let sub0 = all.subrange(0, m - 1);
        assert(sub.drop_last() =~= sub0);
        assert(sub.last() == all[m - 1]);
        let s = all[m - 1];
        let rows = float_children(sub);
        let prev = float_children(sub0);
        assert forall|i: int| 0 <= i < rows.len() implies crate::rows::float_row_tag_known(
            parent_rows(all),
            #[trigger] rows[i],
        ) by {
            if s.values is Int {
                assert(rows[i] == prev[i]);
            } else {
                if i < rows.len() - 1 {
                    assert(rows[i] == prev[i]);
                } else {
                    assert(rows[i] == float_child_of(s));
                    lemma_parent_lookup(all, m - 1);
                    reveal_strlit("FLOAT");
                    reveal_strlit("AVGRATE");
                    assert(float_tag_known(parent_row_of(s)));
                }
            }
        }
    }
}

proof fn lemma_partition_multiset(stats: Seq<StatView>)
    ensures
        (normalized_ints(stats) + normalized_floats(stats)).to_multiset() == stats.map_values(
            |s: StatView| normalize(s),
        ).to_multiset(),
    decreases stats.len(),
{
    broadcast use vstd::seq_lib::group_to_multiset_ensures;
    broadcast use vstd::multiset::group_multiset_axioms;

    let f = |s: StatView| normalize(s);
    if stats.len() == 0 {
        assert(normalized_ints(stats) + normalized_floats(stats) =~= Seq::<StatView>::empty());
        assert(stats.map_values(f) =~= Seq::<StatView>::empty());
    } else {
        let stats0 = stats.drop_last();
        lemma_partition_multiset(stats0);
        let s = stats.last();
        let a = normalized_ints(stats0);
        let b = normalized_floats(stats0);
        assert(stats.map_values(f) =~= stats0.map_values(f).push(f(s)));
        vstd::seq_lib::lemma_multiset_commutative(a, b);
        if s.values is Int {
            assert(normalized_ints(stats) == a.push(normalize(s)));
            assert(normalized_floats(stats) == b);
            vstd::seq_lib::lemma_multiset_commutative(a.push(normalize(s)), b);
            assert(a.push(normalize(s)).to_multiset() =~= a.to_multiset().insert(normalize(s)));
            assert((a.push(normalize(s)) + b).to_multiset() =~= (a + b).to_multiset().insert(
                normalize(s),
            ));
        } else {
            assert(normalized_ints(stats) == a);
            assert(normalized_floats(stats) == b.push(normalize(s)));
            vstd::seq_lib::lemma_multiset_commutative(a, b.push(normalize(s)));
            assert(b.push(normalize(s)).to_multiset() =~= b.to_multiset().insert(normalize(s)));
            assert((a + b.push(normalize(s))).to_multiset() =~= (a + b).to_multiset().insert(
                normalize(s),
            ));
        }
        assert(stats.map_values(f).to_multiset() =~= stats0.map_values(f).to_multiset().insert(
            f(s),
        ));
    }
}

/// Round-trip law: after a full replace with a set the constraints
/// accept, a load succeeds and returns exactly the normalized input — the
/// integer-kind statistics in input order, then the floating-kind ones —
/// which is the input set itself, normalized, up to reordering.
pub proof fn lemma_replace_then_load(stats: Seq<StatView>)
    requires
        valid_input(stats),
    ensures
        float_tags_known(replaced(stats).statistic, replaced(stats).float_statistic),
        loaded(replaced(stats)) == normalized_ints(stats) + normalized_floats(stats),
        loaded(replaced(stats)).to_multiset() == stats.map_values(
            |s: StatView| normalize(s),
        ).to_multiset(),
{
    assert(stats.subrange(0, stats.len() as int) =~= stats);
    lemma_join_ints_replaced(stats, stats.len() as int);
    lemma_join_floats_replaced(stats, stats.len() as int);
    lemma_float_tags_replaced(stats, stats.len() as int);
    lemma_partition_multiset(stats);
}

/// Idempotence law: replacing with the same set twice leaves the store in
/// the same state as replacing once, whether or not the set is accepted.
pub proof fn lemma_replace_all_idempotent(pre: StoreView, stats: Seq<StatView>)
    ensures
        replace_result(replace_result(pre, stats), stats) == replace_result(pre, stats),
{
}

/// Atomicity law: a rejected replace — the transaction that never commits
/// — leaves the store exactly as it was, never a partial mix.
pub proof fn lemma_replace_all_atomic(pre: StoreView, stats: Seq<StatView>)
    ensures
        !valid_input(stats) ==> replace_result(pre, stats) == pre,
{
}

/// Sync-flag law: a freshly created database reads as never synced, and
/// any accepted replace leaves it reading as synced; a rejected one
/// leaves the flag — like everything else — as it was.
pub proof fn lemma_sync_flag_lifecycle(pre: StoreView, stats: Seq<StatView>)
    ensures
        !sync_flag_set(empty_store().sync_flag),
        valid_input(stats) ==> sync_flag_set(replace_result(pre, stats).sync_flag),
        !valid_input(stats) ==> replace_result(pre, stats).sync_flag == pre.sync_flag,
{
    reveal_strlit("1");
    assert("1"@.len() == 1);
    assert(crate::sync_flag::digit_of("1"@[0]) == Some(1u8));
    assert(crate::sync_flag::spec_parse_u8_from("1"@, 1, 1u8) == Some(1u8));
    assert(crate::sync_flag::spec_parse_u8("1"@) == Some(1u8));
}

} // verus!
