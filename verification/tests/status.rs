use gba_agentic_runner::registry::{BusyDevice, BusyRegistry, SuiteRuntimeStatus};
use gba_agentic_runner::status::{runner_status, status_from_exit_code, RunnerStatus};
use gba_agentic_runner::strmap::StrMap;
use gba_agentic_runner::suites::running_suite_statuses;

#[test]
fn last_run_decides_the_status() {
    assert_eq!(runner_status(true, &None), RunnerStatus::Running);
    assert_eq!(runner_status(false, &None), RunnerStatus::Idle);
    assert_eq!(runner_status(false, &Some("{\"exit_code\": 0}".to_string())), RunnerStatus::Done);
    assert_eq!(runner_status(false, &Some("{\"exit_code\": 3}".to_string())), RunnerStatus::Failed);
    assert_eq!(runner_status(false, &Some("{\"run_id\": \"x\"}".to_string())), RunnerStatus::Done);
    assert_eq!(runner_status(false, &Some("not json".to_string())), RunnerStatus::Idle);
    assert_eq!(RunnerStatus::Failed.as_text(), "FAILED");
}

#[test]
fn parsed_exit_codes() {
    assert_eq!(status_from_exit_code(None), RunnerStatus::Idle);
    assert_eq!(status_from_exit_code(Some(None)), RunnerStatus::Done);
    assert_eq!(status_from_exit_code(Some(Some(0))), RunnerStatus::Done);
    assert_eq!(status_from_exit_code(Some(Some(-1))), RunnerStatus::Failed);
}

fn device(serial: &str, statuses: Vec<(&str, &str, u64, Option<&str>)>) -> BusyDevice {
    let mut st = StrMap::new();
    for (suite, status, elapsed, zip) in statuses {
        st.insert(
            suite.to_string(),
            SuiteRuntimeStatus { status: status.to_string(), elapsed_secs: elapsed, zip_file: zip.map(|z| z.to_string()) },
        );
    }
    BusyDevice {
        serial: serial.to_string(),
        is_userdebug: false,
        test_type: "SMR".to_string(),
        model: "M".to_string(),
        pda: "P".to_string(),
        run_id: "run1".to_string(),
        started_at: "1".to_string(),
        result_dir: None,
        current_suite: None,
        suite_statuses: st,
    }
}

#[test]
fn suites_are_grouped_by_run() {
    let mut devices = StrMap::new();
    devices.insert("A".to_string(), device("A", vec![("CTS", "Running", 30, None), ("GTS", "Waiting", 0, None)]));
    devices.insert("B".to_string(), device("B", vec![("CTS", "Copying result", 20, Some("CTS.zip"))]));
    let groups = running_suite_statuses(&BusyRegistry { devices });
    assert_eq!(groups.len(), 2);
    assert_eq!(groups[0].suite, "CTS");
    assert_eq!(groups[0].status, "Copying result");
    assert_eq!(groups[0].elapsed_secs, 30);
    assert_eq!(groups[0].devices, vec!["A", "B"]);
    assert_eq!(groups[0].zip_file.as_deref(), Some("CTS.zip"));
    assert_eq!(groups[1].suite, "GTS");
    assert_eq!(groups[1].devices, vec!["A"]);
}
