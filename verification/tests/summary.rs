use gba_agentic_runner::summary::{number_after, parse_summary, summary_value};

const LOG: &str = "noise PASSED 99\n=============== Summary ===============\nTotal Run time: 1h 2m\n2/3 modules completed\nTotal Tests       : 120\nPASSED            : 100\nFAILED            : 20\n============================================\nPASSED 1\n";

#[test]
fn summary_block_is_read() {
    let s = parse_summary(LOG, "CTS", "A,B", "run1", "MR");
    assert_eq!(s.run_time, "1h 2m");
    assert_eq!(s.modules, "2/3 modules completed");
    assert_eq!(s.total, 120);
    assert_eq!(s.passed, 100);
    assert_eq!(s.failed, 20);
    assert_eq!(s.suite, "CTS");
    assert_eq!(s.devices, "A,B");
}

#[test]
fn missing_summary_gives_defaults() {
    let s = parse_summary("no summary", "GTS", "", "r", "SMR");
    assert_eq!(s.run_time, "N/A");
    assert_eq!(s.modules, "N/A");
    assert_eq!(s.total, 0);
}

#[test]
fn values_and_numbers() {
    assert_eq!(summary_value("a: 1\nkey: value : x\n", "key"), Some("value : x".to_string()));
    assert_eq!(summary_value("key without colon  \n", "key"), Some("key without colon".to_string()));
    assert_eq!(summary_value("abc", "zz"), None);
    assert_eq!(number_after("x\nTotal Tests: 12 of 15\n", "Total Tests"), Some(12));
    assert_eq!(number_after("Total Tests: none\n", "Total Tests"), None);
    assert_eq!(number_after("n 99999999999999999999999\n", "n"), None);
}
