use gameplay_stats::sync_flag::{interpret_sync_flag, parse_u8};

#[test]
fn absent_flag_means_not_synced() {
    assert!(!interpret_sync_flag(None));
}

#[test]
fn zero_flag_means_not_synced() {
    assert!(!interpret_sync_flag(Some(&"0".to_string())));
}

#[test]
fn one_flag_means_synced() {
    assert!(interpret_sync_flag(Some(&"1".to_string())));
}

#[test]
fn any_nonzero_byte_means_synced() {
    assert!(interpret_sync_flag(Some(&"2".to_string())));
    assert!(interpret_sync_flag(Some(&"007".to_string())));
    assert!(interpret_sync_flag(Some(&"255".to_string())));
}

#[test]
fn unparseable_flag_means_not_synced() {
    assert!(!interpret_sync_flag(Some(&"".to_string())));
    assert!(!interpret_sync_flag(Some(&"yes".to_string())));
    assert!(!interpret_sync_flag(Some(&"1x".to_string())));
    assert!(!interpret_sync_flag(Some(&"-1".to_string())));
    assert!(!interpret_sync_flag(Some(&"256".to_string())));
}

#[test]
fn parse_u8_exact_values() {
    assert_eq!(parse_u8("0"), Some(0));
    assert_eq!(parse_u8("42"), Some(42));
    assert_eq!(parse_u8("255"), Some(255));
    assert_eq!(parse_u8("256"), None);
    assert_eq!(parse_u8(""), None);
    assert_eq!(parse_u8("12a"), None);
}
