use gba_agentic_runner::laundry::{
    group_laundry_results, laundry_suite_of, push_unique, result_time_text, select_laundry_results,
    sort_result_rows,
};
use gba_agentic_runner::results::{classify_suite, parse_laundry_result_info, LaundryResultInfo};

fn s(v: &str) -> String {
    v.to_string()
}

#[test]
fn results_are_grouped_by_suite() {
    let found = vec![
        (s("/t/a/CTS_1"), Some(s("CTS"))),
        (s("/t/b/x"), Some(s("Google Test Suite"))),
        (s("/t/sts/y"), None),
        (s("/t/a/CTS_1"), Some(s("CTS"))),
        (s("/t/other"), Some(s("mystery"))),
    ];
    let (cts, gts, sts) = group_laundry_results(&found);
    assert_eq!(cts, vec!["/t/a/CTS_1"]);
    assert_eq!(gts, vec!["/t/b/x"]);
    assert_eq!(sts, vec!["/t/sts/y"]);
}

#[test]
fn suite_names_are_classified() {
    assert_eq!(classify_suite("Compatibility Test Suite"), Some(s("CTS")));
    assert_eq!(classify_suite("SECURITY"), Some(s("STS")));
    assert_eq!(classify_suite("other"), None);
    assert_eq!(laundry_suite_of(&Some(s("other")), "/x/GTS/1"), Some(s("GTS")));
    assert_eq!(laundry_suite_of(&None, "/x/none"), None);
}

#[test]
fn picked_results_are_kept() {
    let dirs = vec![s("/t/a/r1"), s("/t/b/r2")];
    assert_eq!(select_laundry_results("/t", &dirs, &vec![]), dirs);
    assert_eq!(select_laundry_results("/t", &dirs, &vec![s("b/r2")]), vec!["/t/b/r2"]);
    let mut items = vec![s("x")];
    push_unique(&mut items, s("x"));
    push_unique(&mut items, s("y"));
    assert_eq!(items, vec!["x", "y"]);
    assert_eq!(result_time_text(0), "-");
    assert_eq!(result_time_text(3725), "01:02:05");
}

#[test]
fn result_info_is_parsed() {
    let lines = vec![
        s("<?xml version='1.0'?>"),
        s("<Result start=\"1000\" end=\"3661000\" suite_name=\"CTS\" suite_version=\"16_r3\" command_line_args=\" run cts \">"),
        s("<Summary pass=\"10\" failed=\"2\" />"),
    ];
    let info = parse_laundry_result_info("/t", "/t/CTS/2025.01.01", &lines).unwrap();
    assert_eq!(info.id, "CTS/2025.01.01");
    assert_eq!(info.suite, "CTS");
    assert_eq!(info.testcase, "CTS 2025.01.01");
    assert_eq!(info.subtestcases, "run cts");
    assert_eq!(info.time, "01:01:00");
    assert_eq!(info.total, 12);
    assert_eq!(info.suite_version, "16_r3");
}

fn row(suite: &str, version: &str, dir: &str) -> LaundryResultInfo {
    LaundryResultInfo {
        id: s(dir),
        suite: s(suite),
        testcase: s(""),
        subtestcases: s("-"),
        status: s("Ready"),
        time: s("-"),
        total: 0,
        passed: 0,
        failed: 0,
        suite_version: s(version),
        result_dir: s(dir),
    }
}

#[test]
fn rows_sort_by_suite_version_and_dir() {
    let rows = vec![row("GTS", "1", "b"), row("CTS", "2", "a"), row("CTS", "1", "z"), row("CTS", "1", "c")];
    let sorted = sort_result_rows(&rows);
    let dirs: Vec<String> = sorted.iter().map(|r| r.result_dir.clone()).collect();
    assert_eq!(dirs, vec!["c", "z", "a", "b"]);
}
