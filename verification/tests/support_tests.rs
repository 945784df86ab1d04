use reggie::case_insensitive_pattern;
use reggie::hives::{
    get_hive, get_hives, hive_label, CliError, RegistryHiveInfo, HKEY_CLASSES_ROOT,
    HKEY_CURRENT_CONFIG, HKEY_CURRENT_USER, HKEY_CURRENT_USER_LOCAL_SETTINGS, HKEY_DYN_DATA,
    HKEY_LOCAL_MACHINE, HKEY_PERFORMANCE_DATA, HKEY_PERFORMANCE_NLSTEXT, HKEY_PERFORMANCE_TEXT,
    HKEY_USERS,
};
use reggie::join_path;
use reggie::metrics::{result_count, throughput};
use reggie::sequential;
use reggie::tree::{ChildEntry, NodeTree, RootOutcome};

#[test]
fn join_path_uses_backslash_separator() {
    assert_eq!(join_path("HKLM", "SOFTWARE"), "HKLM\\SOFTWARE");
    assert_eq!(join_path("", "x"), "\\x");
    assert_eq!(join_path("a\\b", "c"), "a\\b\\c");
}

#[test]
fn pattern_gets_case_insensitivity_marker() {
    assert_eq!(case_insensitive_pattern("windows"), "(?i)windows");
    assert_eq!(case_insensitive_pattern(""), "(?i)");
}

#[test]
fn hive_lookup_by_short_and_full_name() {
    assert_eq!(get_hive(&"HKLM".to_string()).unwrap(), HKEY_LOCAL_MACHINE);
    assert_eq!(get_hive(&"HKEY_LOCAL_MACHINE".to_string()).unwrap(), HKEY_LOCAL_MACHINE);
    assert_eq!(get_hive(&"HKCR".to_string()).unwrap(), HKEY_CLASSES_ROOT);
    assert_eq!(get_hive(&"HKEY_CLASSES_ROOT".to_string()).unwrap(), HKEY_CLASSES_ROOT);
    assert_eq!(get_hive(&"HKCC".to_string()).unwrap(), HKEY_CURRENT_CONFIG);
    assert_eq!(get_hive(&"HKCU".to_string()).unwrap(), HKEY_CURRENT_USER);
    assert_eq!(
        get_hive(&"HKCULL".to_string()).unwrap(),
        HKEY_CURRENT_USER_LOCAL_SETTINGS
    );
    assert_eq!(get_hive(&"HKDD".to_string()).unwrap(), HKEY_DYN_DATA);
    assert_eq!(get_hive(&"HKPD".to_string()).unwrap(), HKEY_PERFORMANCE_DATA);
    assert_eq!(get_hive(&"HKPL".to_string()).unwrap(), HKEY_PERFORMANCE_NLSTEXT);
    assert_eq!(get_hive(&"HKPT".to_string()).unwrap(), HKEY_PERFORMANCE_TEXT);
    assert_eq!(get_hive(&"HKU".to_string()).unwrap(), HKEY_USERS);
    assert_eq!(get_hive(&"HKEY_USERS".to_string()).unwrap(), HKEY_USERS);
}

#[test]
fn unknown_hive_name_is_an_error() {
    assert!(matches!(get_hive(&"NOPE".to_string()), Err(CliError::UnknownHiveName)));
    assert!(matches!(get_hive(&"".to_string()), Err(CliError::UnknownHiveName)));
    assert!(matches!(get_hive(&"hklm".to_string()), Err(CliError::UnknownHiveName)));
}

#[test]
fn hive_table_lists_ten_hives() {
    let hives: Vec<RegistryHiveInfo> = get_hives();
    assert_eq!(hives.len(), 10);
    assert_eq!(hives[0].short_name, "HKLM");
    assert_eq!(hives[0].name, "HKEY_LOCAL_MACHINE");
    assert_eq!(hives[0].hkey, HKEY_LOCAL_MACHINE);
    assert_eq!(hives[9].short_name, "HKU");
    assert_eq!(hives[9].name, "HKEY_USERS");
    assert_eq!(hives[9].hkey, HKEY_USERS);
    for h in &hives {
        assert_eq!(get_hive(&h.short_name).unwrap(), h.hkey);
        assert_eq!(get_hive(&h.name).unwrap(), h.hkey);
    }
}

#[test]
fn hive_labels_match_short_names() {
    assert_eq!(hive_label(HKEY_CLASSES_ROOT), "HKCR");
    assert_eq!(hive_label(HKEY_CURRENT_CONFIG), "HKCC");
    assert_eq!(hive_label(HKEY_CURRENT_USER), "HKCU");
    assert_eq!(hive_label(HKEY_CURRENT_USER_LOCAL_SETTINGS), "HKCULL");
    assert_eq!(hive_label(HKEY_DYN_DATA), "HKDD");
    assert_eq!(hive_label(HKEY_LOCAL_MACHINE), "HKLM");
    assert_eq!(hive_label(HKEY_PERFORMANCE_DATA), "HKPD");
    assert_eq!(hive_label(HKEY_PERFORMANCE_NLSTEXT), "HKPL");
    assert_eq!(hive_label(HKEY_PERFORMANCE_TEXT), "HKPT");
    assert_eq!(hive_label(HKEY_USERS), "HKU");
    assert_eq!(hive_label(12345), "(unknown)");
}

#[test]
fn zero_elapsed_time_reports_no_throughput() {
    assert_eq!(throughput(1000, 0), None);
    assert_eq!(throughput(0, 0), None);
}

#[test]
fn throughput_is_count_over_seconds() {
    assert_eq!(throughput(500, 2_000_000), Some(250));
    assert_eq!(throughput(0, 1_000_000), Some(0));
    assert_eq!(throughput(1, 1), Some(1_000_000));
    assert_eq!(throughput(u64::MAX, 1_000_000), Some(u64::MAX as u128));
}

#[test]
fn count_matches_returned_collection() {
    let root = RootOutcome::Opened(NodeTree {
        children: vec![
            ChildEntry::Open("a".to_string(), NodeTree { children: vec![] }),
            ChildEntry::Open("b".to_string(), NodeTree { children: vec![] }),
        ],
    });
    let out = sequential::get_all(&"root".to_string(), &root).unwrap();
    assert_eq!(result_count(&out), 3);
    assert_eq!(result_count(&out), out.len());
}
