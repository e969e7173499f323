use gameplay_stats::rows::{decode_float_stat, encode_stat, ChildRow, FloatRow, IntRow, StatRow};
use gameplay_stats::stats::{FieldValue, FloatPayload, IntPayload, Statistic};
use gameplay_stats::store::StatsDb;

fn int_stat(id: i64, key: &str, value: i64, min: Option<i64>, max: Option<i64>) -> Statistic {
    Statistic::new(
        id,
        key.to_string(),
        None,
        false,
        FieldValue::Int(IntPayload {
            value,
            default_value: None,
            min_value: min,
            max_value: max,
            max_change: None,
        }),
    )
}

fn avg_rate_stat(id: i64, key: &str, value: f64, window: Option<f64>) -> Statistic {
    Statistic::new(
        id,
        key.to_string(),
        window.map(f64::to_bits),
        false,
        FieldValue::AvgRate(FloatPayload {
            value: value.to_bits(),
            default_value: None,
            min_value: None,
            max_value: None,
            max_change: None,
        }),
    )
}

fn float_stat(id: i64, key: &str, value: f64, window: Option<f64>) -> Statistic {
    Statistic::new(
        id,
        key.to_string(),
        window.map(f64::to_bits),
        false,
        FieldValue::Float(FloatPayload {
            value: value.to_bits(),
            default_value: None,
            min_value: None,
            max_value: None,
            max_change: None,
        }),
    )
}

#[test]
fn round_trip_mixed_kinds() {
    let mut db = StatsDb::new();
    let input = vec![
        int_stat(1, "kills", 5, Some(0), Some(100)),
        avg_rate_stat(2, "accuracy", 0.5, Some(30.0)),
        int_stat(3, "deaths", 7, None, None),
        float_stat(4, "speed", 1.25, None),
    ];
    db.replace_all(&input).unwrap();
    let out = db.load_all().unwrap();
    assert_eq!(out.len(), 4);
    // Integer statistics come first, then floating ones, each in input order.
    assert_eq!(out[0].id, 1);
    assert_eq!(out[1].id, 3);
    assert_eq!(out[2].id, 2);
    assert_eq!(out[3].id, 4);
    assert_eq!(out[0].key, "kills");
    assert_eq!(out[2].key, "accuracy");
    // Omitted defaults are normalized to zero; everything else survives.
    match &out[0].values {
        FieldValue::Int(p) => {
            assert_eq!(p.value, 5);
            assert_eq!(p.default_value, Some(0));
            assert_eq!(p.min_value, Some(0));
            assert_eq!(p.max_value, Some(100));
            assert_eq!(p.max_change, None);
        }
        _ => panic!("wrong kind"),
    }
    match &out[2].values {
        FieldValue::AvgRate(p) => {
            assert_eq!(f64::from_bits(p.value), 0.5);
            assert_eq!(p.default_value, Some(0f64.to_bits()));
        }
        _ => panic!("wrong kind"),
    }
    match &out[3].values {
        FieldValue::Float(p) => assert_eq!(f64::from_bits(p.value), 1.25),
        _ => panic!("wrong kind"),
    }
}

#[test]
fn replace_is_idempotent() {
    let input = vec![
        int_stat(1, "kills", 5, Some(0), Some(100)),
        avg_rate_stat(2, "accuracy", 0.5, Some(30.0)),
    ];
    let mut once = StatsDb::new();
    once.replace_all(&input).unwrap();
    let mut twice = StatsDb::new();
    twice.replace_all(&input).unwrap();
    twice.replace_all(&input).unwrap();
    assert_eq!(once, twice);
}

#[test]
fn rejected_replace_leaves_previous_set() {
    let mut db = StatsDb::new();
    let first = vec![int_stat(1, "kills", 5, None, None)];
    db.replace_all(&first).unwrap();
    let before = db.clone();
    // The second statistic repeats id 2: the insert fails mid-sequence and
    // the transaction never commits.
    let second = vec![
        int_stat(2, "deaths", 1, None, None),
        int_stat(2, "assists", 3, None, None),
    ];
    assert!(db.replace_all(&second).is_err());
    assert_eq!(db, before);
    let out = db.load_all().unwrap();
    assert_eq!(out.len(), 1);
    assert_eq!(out[0].id, 1);
    assert_eq!(out[0].key, "kills");
    assert!(db.is_synced());
}

#[test]
fn duplicate_keys_are_rejected() {
    let mut db = StatsDb::new();
    let input = vec![
        int_stat(1, "kills", 5, None, None),
        int_stat(2, "kills", 6, None, None),
    ];
    assert!(db.replace_all(&input).is_err());
    assert!(!db.is_synced());
    assert_eq!(db.load_all().unwrap().len(), 0);
}

#[test]
fn synced_flag_lifecycle() {
    let mut db = StatsDb::new();
    assert!(!db.is_synced());
    db.replace_all(&vec![int_stat(1, "kills", 5, None, None)])
        .unwrap();
    assert!(db.is_synced());
}

#[test]
fn kind_tag_and_window_round_trip() {
    let mut db = StatsDb::new();
    let input = vec![
        avg_rate_stat(1, "rate", 2.0, Some(30.0)),
        float_stat(2, "plain", 3.0, None),
        int_stat(3, "count", 4, None, None),
    ];
    db.replace_all(&input).unwrap();
    let out = db.load_all().unwrap();
    // Integer statistics first: the integer table has no window column.
    assert_eq!(out[0].id, 3);
    assert_eq!(out[0].window, None);
    assert!(matches!(out[0].values, FieldValue::Int(_)));
    assert_eq!(out[1].id, 1);
    assert_eq!(out[1].window, Some(30f64.to_bits()));
    assert!(matches!(out[1].values, FieldValue::AvgRate(_)));
    assert_eq!(out[2].id, 2);
    assert_eq!(out[2].window, None);
    assert!(matches!(out[2].values, FieldValue::Float(_)));
}

#[test]
fn example_two_statistics() {
    let mut db = StatsDb::new();
    let input = vec![
        int_stat(1, "kills", 5, Some(0), Some(100)),
        avg_rate_stat(2, "accuracy", 0.5, Some(30.0)),
    ];
    db.replace_all(&input).unwrap();
    let out = db.load_all().unwrap();
    assert_eq!(out.len(), 2);
    let kills = out.iter().find(|s| s.id == 1).unwrap();
    let accuracy = out.iter().find(|s| s.id == 2).unwrap();
    assert_eq!(kills.key, "kills");
    assert_eq!(
        kills.values,
        FieldValue::Int(IntPayload {
            value: 5,
            default_value: Some(0),
            min_value: Some(0),
            max_value: Some(100),
            max_change: None,
        })
    );
    assert_eq!(accuracy.key, "accuracy");
    assert_eq!(accuracy.window, Some(30f64.to_bits()));
    assert_eq!(
        accuracy.values,
        FieldValue::AvgRate(FloatPayload {
            value: 0.5f64.to_bits(),
            default_value: Some(0f64.to_bits()),
            min_value: None,
            max_value: None,
            max_change: None,
        })
    );
    assert!(db.is_synced());
}

#[test]
fn empty_replace_clears_everything() {
    let mut db = StatsDb::new();
    db.replace_all(&vec![
        int_stat(1, "kills", 5, None, None),
        avg_rate_stat(2, "accuracy", 0.5, Some(30.0)),
    ])
    .unwrap();
    db.replace_all(&Vec::new()).unwrap();
    assert_eq!(db.load_all().unwrap().len(), 0);
    assert!(db.is_synced());
}

#[test]
fn encode_produces_expected_rows() {
    let s = avg_rate_stat(7, "rate", 0.5, Some(30.0));
    let (parent, child) = encode_stat(&s);
    assert_eq!(parent.id, 7);
    assert_eq!(parent.key, "rate");
    assert_eq!(parent.kind, "AVGRATE");
    assert!(!parent.increment_only);
    assert!(!parent.changed);
    match child {
        ChildRow::Float(row) => {
            assert_eq!(row.id, 7);
            assert_eq!(row.value, 0.5f64.to_bits());
            // The omitted default is written as zero.
            assert_eq!(row.default_value, 0f64.to_bits());
            assert_eq!(row.window, Some(30f64.to_bits()));
        }
        ChildRow::Int(_) => panic!("wrong child table"),
    }

    let i = int_stat(3, "count", 9, Some(1), None);
    let (parent, child) = encode_stat(&i);
    assert_eq!(parent.kind, "INT");
    match child {
        ChildRow::Int(row) => {
            assert_eq!(row.value, 9);
            assert_eq!(row.default_value, 0);
            assert_eq!(row.min_value, Some(1));
        }
        ChildRow::Float(_) => panic!("wrong child table"),
    }
}

#[test]
fn unknown_kind_tag_is_a_data_integrity_error() {
    let parent = StatRow {
        id: 1,
        key: "kills".to_string(),
        kind: "BOGUS".to_string(),
        increment_only: false,
        changed: false,
    };
    let row = FloatRow {
        id: 1,
        value: 0,
        default_value: 0,
        min_value: None,
        max_value: None,
        max_change: None,
        window: None,
    };
    let err = decode_float_stat(&parent, &row).unwrap_err();
    assert_eq!(err.kind, "BOGUS");
}

#[test]
fn corrupt_store_fails_to_load() {
    let mut db = StatsDb::new();
    db.replace_all(&vec![float_stat(1, "speed", 1.0, None)])
        .unwrap();
    // Damage the stored kind tag directly, as on-disk corruption would.
    db.statistic[0].kind = "SOMETHING".to_string();
    assert!(db.load_all().is_err());
}

#[test]
fn orphan_child_rows_are_dropped_by_the_join() {
    let mut db = StatsDb::new();
    db.replace_all(&vec![int_stat(1, "kills", 5, None, None)])
        .unwrap();
    // A child row without a parent joins to nothing.
    db.int_statistic.push(IntRow {
        id: 99,
        value: 1,
        default_value: 0,
        min_value: None,
        max_value: None,
        max_change: None,
    });
    let out = db.load_all().unwrap();
    assert_eq!(out.len(), 1);
    assert_eq!(out[0].id, 1);
}
