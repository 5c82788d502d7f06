use gba_agentic_runner::logs::{
    active_logs, find_flow_result_dir, flows_by_title, legacy_flow_title, legacy_run_id, log_section,
    logs_or_note, merge_busy_devices, requested_log_suite, suite_options, suite_wanted, tail_lines,
    LogFlowOption,
};
use gba_agentic_runner::registry::{BusyDevice, BusyRegistry};
use gba_agentic_runner::strmap::StrMap;

fn device(serial: &str, run_id: &str, dir: Option<&str>) -> BusyDevice {
    BusyDevice {
        serial: serial.to_string(),
        is_userdebug: false,
        test_type: "MR".to_string(),
        model: "SM-X".to_string(),
        pda: "P1".to_string(),
        run_id: run_id.to_string(),
        started_at: "1".to_string(),
        result_dir: dir.map(|d| d.to_string()),
        current_suite: None,
        suite_statuses: StrMap::new(),
    }
}

#[test]
fn legacy_folders_get_titles() {
    assert_eq!(
        legacy_flow_title("Cuci_SMR_SM-S928B_PDA1_2devs_1700_x"),
        Some("Cuci SMR | SM-S928B | PDA1".to_string())
    );
    assert_eq!(legacy_flow_title("a_1devs_x"), None);
    assert_eq!(legacy_flow_title("no_marker_here"), None);
    assert_eq!(legacy_run_id(255), "legacy_ff");
}

#[test]
fn busy_devices_join_their_flows() {
    let mut groups = StrMap::new();
    groups.insert(
        "run1".to_string(),
        LogFlowOption { id: "run1".to_string(), title: "T1".to_string(), run_id: "run1".to_string(), result_dir: None },
    );
    let mut devices = StrMap::new();
    devices.insert("A".to_string(), device("A", "run2", Some("/r2")));
    devices.insert("B".to_string(), device("B", "run2", None));
    devices.insert("C".to_string(), device("C", "run1", Some("/r1")));
    let registry = BusyRegistry { devices };
    merge_busy_devices(&mut groups, &registry);
    let r2 = groups.get("run2").unwrap();
    assert_eq!(r2.title, "MR | SM-X | P1 [A,B]");
    assert_eq!(r2.result_dir.as_deref(), Some("/r2"));
    let r1 = groups.get("run1").unwrap();
    assert_eq!(r1.title, "T1,C]");
    assert_eq!(r1.result_dir.as_deref(), Some("/r1"));
    let flows = flows_by_title(&groups);
    let titles: Vec<String> = flows.iter().map(|f| f.title.clone()).collect();
    assert_eq!(titles, vec!["MR | SM-X | P1 [A,B]", "T1,C]"]);
    assert_eq!(find_flow_result_dir(&flows, "run1"), Some("/r1".to_string()));
    assert_eq!(find_flow_result_dir(&flows, "nope"), None);
}

#[test]
fn log_sections() {
    assert_eq!(requested_log_suite(&None), "RUNNER");
    assert_eq!(requested_log_suite(&Some("cts".to_string())), "CTS");
    assert_eq!(requested_log_suite(&Some("weird".to_string())), "ALL");
    assert!(suite_wanted("ALL", "GTS"));
    assert!(suite_wanted("GTS", "GTS"));
    assert!(!suite_wanted("CTS", "GTS"));
    assert_eq!(tail_lines("a\nb\nc\n", 2), "b\nc");
    assert_eq!(tail_lines("a", 5), "a");
    assert_eq!(log_section("run.log", "x"), "--- LOG FILE: run.log ---\nx\n\n");
    assert_eq!(suite_options(true, false, true, false), vec!["ALL", "RUNNER", "GTS"]);
    assert_eq!(logs_or_note(""), "No log files found.");
    assert_eq!(logs_or_note("x"), "x");
    assert_eq!(active_logs(&None), "No active logs found.");
    assert_eq!(active_logs(&Some("1\n2".to_string())), "1\n2");
}

#[test]
fn serial_ending_in_bracket_loses_it_in_the_title() {
    let mut groups = StrMap::new();
    let mut devices = StrMap::new();
    devices.insert("a]".to_string(), device("a]", "run3", None));
    devices.insert("b".to_string(), device("b", "run3", None));
    merge_busy_devices(&mut groups, &BusyRegistry { devices });
    assert_eq!(groups.get("run3").unwrap().title, "MR | SM-X | P1 [a,b]");
}
