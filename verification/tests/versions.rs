use gba_agentic_runner::versions::{
    resolve_versioned_suite_root, same_suite_os_version, sort_versions_by_rank,
    suite_version_from_result_version, suite_version_matches_hint, suite_version_rank,
};

#[test]
fn cts_revisions_must_keep_the_same_os_version() {
    assert!(same_suite_os_version("16_r4", "16_r5"));
    assert!(same_suite_os_version("16.1_r3", "16.1_r4"));
    assert!(!same_suite_os_version("16_r5", "16.1_r3"));
}

#[test]
fn version_rank_reads_major_minor_and_revision() {
    assert_eq!(suite_version_rank("16.1_r3"), (16, 1, 3));
    assert_eq!(suite_version_rank("15_r12"), (15, 0, 12));
    assert_eq!(suite_version_rank("14"), (14, 0, 0));
    assert_eq!(suite_version_rank("abc"), (0, 0, 0));
}

#[test]
fn same_os_version_is_symmetric_on_examples() {
    assert_eq!(same_suite_os_version("16_r1", "16_r9"), same_suite_os_version("16_r9", "16_r1"));
    assert!(same_suite_os_version("15", "15"));
}

#[test]
fn hint_matches_exact_or_any_revision() {
    assert!(suite_version_matches_hint("16", "16"));
    assert!(suite_version_matches_hint("16_r4", "16"));
    assert!(!suite_version_matches_hint("16.1_r4", "16"));
    assert!(!suite_version_matches_hint("16_r5", "16_r4"));
}

#[test]
fn versions_sort_by_rank_keeping_ties() {
    let v = vec!["16_r2".to_string(), "15_r9".to_string(), "16.1_r1".to_string(), "16_r1".to_string()];
    let sorted = sort_versions_by_rank(&v);
    assert_eq!(sorted, vec!["15_r9", "16_r1", "16_r2", "16.1_r1"]);
}

#[test]
fn exact_version_directory_wins() {
    let versions = vec!["16_r1".to_string()];
    let r = resolve_versioned_suite_root("/auto", "CTS", "android-cts", "16_r5", true, &versions);
    assert_eq!(r, Ok("/auto/CTS/16_r5/android-cts".to_string()));
}

#[test]
fn lowest_matching_version_is_chosen() {
    let versions = vec!["16_r1".to_string(), "16_r4".to_string(), "16.1_r2".to_string()];
    let r = resolve_versioned_suite_root("/auto", "CTS", "android-cts", "16", false, &versions);
    assert_eq!(r, Ok("/auto/CTS/16_r1/android-cts".to_string()));
}

#[test]
fn missing_version_names_the_hint() {
    let versions = vec!["15_r1".to_string()];
    let r = resolve_versioned_suite_root("/auto", "CTS", "android-cts", "16", false, &versions);
    assert_eq!(r, Err("CTS tools for version 16 not found under /auto/CTS".to_string()));
    let r = resolve_versioned_suite_root("/auto", "GTS", "android-gts", " ", false, &Vec::new());
    assert_eq!(r, Err("GTS tools for version <default> not found under /auto/GTS".to_string()));
}

#[test]
fn result_version_is_normalized() {
    assert_eq!(suite_version_from_result_version("16_R3 (build 1234)"), Some("16_r3".to_string()));
    assert_eq!(suite_version_from_result_version("v15.1_r2"), Some("15.1_r2".to_string()));
    assert_eq!(suite_version_from_result_version("   "), None);
    assert_eq!(suite_version_from_result_version("latest"), None);
}
